//! The failures that the authentication core reports.

use vstd::prelude::*;

verus! {

/// Why an operation of the authentication core failed.
#[derive(Clone, Copy, Debug, PartialEq, Eq, Structural)]
pub enum AppError {
    /// A user with the same email is already stored.
    DuplicateEmail,
    /// No such email, or the password does not match: never told apart.
    InvalidCredentials,
    /// The account exists and is switched off.
    AccountInactive,
    /// The token is malformed, carries a wrong signature or has expired.
    InvalidToken,
    /// The token is good and its user is gone.
    UserNotFound,
    /// The hasher could not make a hash, or a stored hash cannot be read.
    Hashing,
    /// The signing key was refused.
    Signing,
    /// The user table failed, or holds an identifier or a timestamp that
    /// cannot be read.
    Storage,
}

impl AppError {
    /// True for the failures of the machinery below the service, whose
    /// detail is logged and never shown to the caller.
    pub open spec fn spec_is_internal(self) -> bool {
        self == AppError::Hashing || self == AppError::Signing || self == AppError::Storage
    }

    /// What a caller is told of the failure. The failures of the machinery
    /// below the service all read the same.
    pub open spec fn spec_public_message(self) -> Seq<char> {
        match self {
            AppError::DuplicateEmail => "A user with this email already exists"@,
            AppError::InvalidCredentials => "Invalid credentials"@,
            AppError::AccountInactive => "Account is inactive"@,
            AppError::InvalidToken => "Invalid token"@,
            AppError::UserNotFound => "User not found"@,
            AppError::Hashing | AppError::Signing | AppError::Storage => "Internal server error"@,
        }
    }

    /// What a caller is told of the failure.
    pub fn public_message(self) -> (r: &'static str)
        ensures
            r@ == self.spec_public_message(),
    {
        match self {
            AppError::DuplicateEmail => "A user with this email already exists",
            AppError::InvalidCredentials => "Invalid credentials",
            AppError::AccountInactive => "Account is inactive",
            AppError::InvalidToken => "Invalid token",
            AppError::UserNotFound => "User not found",
            AppError::Hashing | AppError::Signing | AppError::Storage => "Internal server error",
        }
    }

    /// Whether the failure is one of the machinery below the service.
    #[verifier::when_used_as_spec(spec_is_internal)]
    pub fn is_internal(self) -> (r: bool)
        ensures
            r == self.spec_is_internal(),
    {
        match self {
            AppError::Hashing | AppError::Signing | AppError::Storage => true,
            _ => false,
        }
    }
}

/// What a caller is told of a failure below the service does not tell which
/// part failed.
pub proof fn lemma_internal_failures_read_alike(a: AppError, b: AppError)
    requires
        a.spec_is_internal(),
        b.spec_is_internal(),
    ensures
        a.spec_public_message() == b.spec_public_message(),
{
}

/// An outcome with the value that it holds brought to its view.
pub open spec fn ok_view<T: View, E>(r: Result<T, E>) -> Result<T::V, E> {
    match r {
        Ok(value) => Ok(value@),
        Err(e) => Err(e),
    }
}

/// The outcome of a lookup with the value that it found brought to its view.
pub open spec fn found_view<T: View, E>(r: Result<Option<T>, E>) -> Result<Option<T::V>, E> {
    match r {
        Ok(Some(value)) => Ok(Some(value@)),
        Ok(None) => Ok(None),
        Err(e) => Err(e),
    }
}

} // verus!
