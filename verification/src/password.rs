//! Password hashing: a salted, deliberately slow one-way hash, and the check
//! of a password against a stored hash.

use vstd::prelude::*;
use crate::errors::AppError;

verus! {

/// The lowest cost that the hash takes.
pub const MIN_COST: u32 = 4;

/// The highest cost that the hash takes.
pub const MAX_COST: u32 = 31;

/// The cost that is used where none is chosen.
pub const DEFAULT_COST: u32 = 12;

/// What `bcrypt` finds when it checks a password against a hash: whether they
/// match, or `None` where the hash cannot be read.
pub uninterp spec fn bcrypt_check(password: Seq<char>, hash: Seq<char>) -> Option<bool>;

/// Hashes with `bcrypt::hash`, which draws a fresh salt on every call. Of
/// the hash only this is known: `bcrypt::verify` reads the salt and the cost
/// back from it and finds that the password matches.
#[verifier::external_body]
fn bcrypt_hash(password: &str, cost: u32) -> (r: Option<String>)
    ensures
        r matches Some(hash) ==> bcrypt_check(password@, hash@) == Some(true),
{
    match bcrypt::hash(password, cost) {
        Ok(hash) => Some(hash),
        Err(_) => None,
    }
}

/// Checks with `bcrypt::verify`, whose answer depends on the password and
/// the hash alone.
#[verifier::external_body]
fn bcrypt_verify(password: &str, hash: &str) -> (r: Option<bool>)
    ensures
        r == bcrypt_check(password@, hash@),
{
    match bcrypt::verify(password, hash) {
        Ok(same) => Some(same),
        Err(_) => None,
    }
}

/// What checking a password against a stored hash gives: whether it is the
/// password that was hashed, or `Hashing` where the hash cannot be read.
pub open spec fn spec_verify_password(password: Seq<char>, hash: Seq<char>) -> Result<
    bool,
    AppError,
> {
    match bcrypt_check(password, hash) {
        Some(same) => Ok(same),
        None => Err(AppError::Hashing),
    }
}

/// What the hasher reports for an answer of the check.
pub fn verdict(found: Option<bool>) -> (r: Result<bool, AppError>)
    ensures
        r == match found {
            Some(same) => Ok::<bool, AppError>(same),
            None => Err::<bool, AppError>(AppError::Hashing),
        },
{
    match found {
        Some(same) => Ok(same),
        None => Err(AppError::Hashing),
    }
}

/// What the hasher reports for a hash that was made, or for none.
pub fn hashed(made: Option<String>) -> (r: Result<String, AppError>)
    ensures
        match made {
            Some(hash) => r == Ok::<String, AppError>(hash),
            None => r == Err::<String, AppError>(AppError::Hashing),
        },
{
    match made {
        Some(hash) => Ok(hash),
        None => Err(AppError::Hashing),
    }
}

/// Hashes passwords at one cost, and checks passwords against hashes of any
/// cost.
#[derive(Clone, Copy, Debug, PartialEq, Eq, Structural)]
pub struct CredentialHasher {
    cost: u32,
}

impl CredentialHasher {
    /// The cost that hashes are made at.
    pub closed spec fn cost(self) -> int {
        self.cost as int
    }

    /// Every hasher works at a cost that the hash takes.
    #[verifier::type_invariant]
    pub closed spec fn cost_allowed(self) -> bool {
        MIN_COST <= self.cost <= MAX_COST
    }

    /// A hasher that works at `cost`, where the hash takes that cost.
    pub fn new(cost: u32) -> (r: Option<CredentialHasher>)
        ensures
            r is Some <==> MIN_COST <= cost <= MAX_COST,
            r matches Some(h) ==> h.cost() == cost,
    {
        if MIN_COST <= cost && cost <= MAX_COST {
            Some(CredentialHasher { cost })
        } else {
            None
        }
    }

    /// A hasher that works at the default cost.
    pub fn with_default_cost() -> (r: CredentialHasher)
        ensures
            r.cost() == DEFAULT_COST,
    {
        CredentialHasher { cost: DEFAULT_COST }
    }

    /// The cost that hashes are made at.
    pub fn work_factor(&self) -> (r: u32)
        ensures
            r == self.cost(),
            MIN_COST <= r <= MAX_COST,
    {
        proof {
            use_type_invariant(self);
        }
        self.cost
    }

    /// Hashes a password with a fresh salt. The hash verifies against the
    /// password. Fails with `Hashing` where the hash could not be made, and
    /// with nothing else.
    pub fn hash(&self, plaintext: &str) -> (r: Result<String, AppError>)
        ensures
            match r {
                Ok(hash) => spec_verify_password(plaintext@, hash@) == Ok::<bool, AppError>(true),
                Err(e) => e == AppError::Hashing,
            },
    {
        hashed(bcrypt_hash(plaintext, self.cost))
    }

    /// Checks a password against a stored hash, with the salt and the cost
    /// that the hash holds. A password that does not match is `Ok(false)`;
    /// `Hashing` is for a hash that cannot be read.
    pub fn verify(&self, plaintext: &str, hash: &str) -> (r: Result<bool, AppError>)
        ensures
            r == spec_verify_password(plaintext@, hash@),
    {
        verdict(bcrypt_verify(plaintext, hash))
    }
}

} // verus!
