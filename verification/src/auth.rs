//! The flows of the service: registration, login, and finding the user that a
//! token belongs to.
//!
//! Each flow comes in two forms. One works on the user table of this crate.
//! The other takes what a lookup or an insert gave as an argument, for a
//! caller that keeps its users elsewhere.

use vstd::prelude::*;
use crate::database::{
    count_email, lemma_second_insert_is_refused, row_by_email, row_by_id, spec_find_by_email,
    spec_find_by_id, spec_insert, Database,
};
use crate::errors::{found_view, ok_view, AppError};
use crate::ident::{hyphenated, UserId};
use crate::password::{spec_verify_password, CredentialHasher};
use crate::timestamp::{lemma_parts_fit, Timestamp, MAX_SECS, MIN_SECS};
use crate::token::{lemma_issued_token_lifetime, spec_issue, spec_verify, TokenService};
use crate::text::opt_text;
use crate::user::{
    copy_text, public_view, NewUser, NewUserView, PublicUser, PublicUserView, RowView, User,
    UserView,
};

verus! {

/// What a successful registration or login hands back.
#[derive(Debug, PartialEq, Eq)]
pub struct AuthResponse {
    /// The user, without the hash.
    pub user: PublicUser,
    /// A fresh token for the user.
    pub token: String,
}

/// What is handed back, as plain values.
pub struct AuthResponseView {
    pub user: PublicUserView,
    pub token: Seq<char>,
}

impl View for AuthResponse {
    type V = AuthResponseView;

    open spec fn view(&self) -> AuthResponseView {
        AuthResponseView { user: self.user@, token: self.token@ }
    }
}

/// True when a token issued at any moment that a timestamp can hold expires
/// at a moment that fits in 64 bits.
pub open spec fn lifetime_fits(lifetime: int) -> bool {
    i64::MIN <= MIN_SECS + lifetime && MAX_SECS + lifetime <= i64::MAX
}

/// What a user and a freshly issued token are answered with.
pub open spec fn answer(user: UserView, issued: Result<Seq<char>, AppError>) -> Result<
    AuthResponseView,
    AppError,
> {
    match issued {
        Ok(token) => Ok(AuthResponseView { user: public_view(user), token }),
        Err(e) => Err(e),
    }
}

/// What a login gives, for what the lookup of the email gave. No user and a
/// wrong password are the same failure; a user that is switched off is told
/// apart, before the password is looked at.
pub open spec fn spec_login(
    secret: Seq<char>,
    lifetime: int,
    found: Result<Option<UserView>, AppError>,
    password: Seq<char>,
    now: Timestamp,
) -> Result<AuthResponseView, AppError> {
    match found {
        Err(e) => Err(e),
        Ok(None) => Err(AppError::InvalidCredentials),
        Ok(Some(user)) => if !user.is_active {
            Err(AppError::AccountInactive)
        } else {
            match spec_verify_password(password, user.password_hash) {
                Err(e) => Err(e),
                Ok(false) => Err(AppError::InvalidCredentials),
                Ok(true) => answer(
                    user,
                    spec_issue(secret, lifetime, user.id.value, now.secs()),
                ),
            }
        },
    }
}

/// What a registration gives, for what the insert gave.
pub open spec fn spec_registered(
    secret: Seq<char>,
    lifetime: int,
    inserted: Result<UserView, AppError>,
    now: Timestamp,
) -> Result<AuthResponseView, AppError> {
    match inserted {
        Ok(user) => answer(user, spec_issue(secret, lifetime, user.id.value, now.secs())),
        Err(e) => Err(e),
    }
}

/// What a registration gives on a table with the given rows, and the rows
/// afterwards, for the user that is handed to the table and the identifier
/// that was drawn for it.
pub open spec fn spec_register(
    secret: Seq<char>,
    lifetime: int,
    rows: Seq<RowView>,
    draft: NewUserView,
    id: UserId,
    now: Timestamp,
) -> (Result<AuthResponseView, AppError>, Seq<RowView>) {
    let (inserted, after) = spec_insert(rows, draft, id, now);
    (spec_registered(secret, lifetime, inserted, now), after)
}

/// What finding the user of a token gives, for what the lookup of the
/// token's subject gave.
pub open spec fn spec_resolve(found: Result<Option<UserView>, AppError>) -> Result<
    PublicUserView,
    AppError,
> {
    match found {
        Err(e) => Err(e),
        Ok(None) => Err(AppError::UserNotFound),
        Ok(Some(user)) => Ok(public_view(user)),
    }
}

/// What `me` gives on a table with the given rows.
pub open spec fn spec_me(secret: Seq<char>, rows: Seq<RowView>, token: Seq<char>, now: Timestamp)
    -> Result<PublicUserView, AppError> {
    match spec_verify(secret, token, now.secs()) {
        Ok(id) => spec_resolve(spec_find_by_id(rows, id)),
        Err(e) => Err(e),
    }
}

/// The user that a registration hands to the table.
pub open spec fn draft_of(
    name: Seq<char>,
    email: Seq<char>,
    hash: Seq<char>,
    avatar: Option<Seq<char>>,
) -> NewUserView {
    NewUserView { name, email, password_hash: hash, avatar, is_active: true }
}

/// The service: a hasher for the passwords and a token service for the
/// sessions.
pub struct AuthService {
    hasher: CredentialHasher,
    tokens: TokenService,
}

impl AuthService {
    /// The secret of the token service.
    pub closed spec fn secret(&self) -> Seq<char> {
        self.tokens.secret()
    }

    /// The lifetime of the tokens, in seconds.
    pub closed spec fn lifetime(&self) -> int {
        self.tokens.lifetime()
    }

    /// The hasher of the passwords.
    pub closed spec fn hasher(&self) -> CredentialHasher {
        self.hasher
    }

    /// In every service the lifetime of the tokens fits.
    #[verifier::type_invariant]
    pub closed spec fn fits(&self) -> bool {
        lifetime_fits(self.tokens.lifetime())
    }

    /// A service with the given parts, where the lifetime of the tokens fits.
    pub fn new(hasher: CredentialHasher, tokens: TokenService) -> (r: Option<AuthService>)
        ensures
            r is Some <==> lifetime_fits(tokens.lifetime()),
            r matches Some(service) ==> service.secret() == tokens.secret() && service.lifetime()
                == tokens.lifetime() && service.hasher() == hasher,
    {
        let lifetime: i64 = tokens.lifetime_seconds();
        if i64::MIN - MIN_SECS <= lifetime && lifetime <= i64::MAX - MAX_SECS {
            Some(AuthService { hasher, tokens })
        } else {
            None
        }
    }

    /// Issues a token for a stored user and puts the answer together.
    fn respond(&self, user: &User, now: Timestamp) -> (r: Result<AuthResponse, AppError>)
        ensures
            ok_view(r) == answer(
                user@,
                spec_issue(self.secret(), self.lifetime(), user.id.value, now.secs()),
            ),
    {
        proof {
            use_type_invariant(self);
        }
        match self.tokens.issue(user.id, now.seconds()) {
            Ok(token) => Ok(AuthResponse { user: user.to_public(), token }),
            Err(e) => Err(e),
        }
    }

    /// The first step of a registration: hashes the password and makes the
    /// user to be stored, which is active. Fails with `Hashing` where the
    /// hash could not be made, and with nothing else.
    pub fn prepare_registration(
        &self,
        name: &str,
        email: &str,
        password: &str,
        avatar: &Option<String>,
    ) -> (r: Result<NewUser, AppError>)
        ensures
            match r {
                Ok(draft) => draft@ == draft_of(
                    name@,
                    email@,
                    draft.password_hash@,
                    opt_text(*avatar),
                ) && spec_verify_password(password@, draft.password_hash@) == Ok::<
                    bool,
                    AppError,
                >(true),
                Err(e) => e == AppError::Hashing,
            },
    {
        match self.hasher.hash(password) {
            Ok(hash) => Ok(
                NewUser {
                    name: name.to_owned(),
                    email: email.to_owned(),
                    password_hash: hash,
                    avatar: copy_text(avatar),
                    is_active: true,
                },
            ),
            Err(e) => Err(e),
        }
    }

    /// The last step of a registration, for what the insert gave: a failure
    /// is handed on as it is; for the user that was stored a token is
    /// issued.
    pub fn complete_registration(&self, inserted: Result<User, AppError>, now: Timestamp) -> (r:
        Result<AuthResponse, AppError>)
        ensures
            ok_view(r) == spec_registered(self.secret(), self.lifetime(), ok_view(inserted), now),
    {
        match inserted {
            Ok(user) => self.respond(&user, now),
            Err(e) => Err(e),
        }
    }

    /// Registers a user: hashes the password, stores the user, issues a
    /// token. The answer never holds the hash.
    ///
    /// Whatever hash and identifier come up, the table and the answer are
    /// those of an insert of the user with that hash under that identifier;
    /// a failure of the hasher leaves the table as it was. An email that is
    /// already stored is never registered again.
    pub fn register(
        &self,
        db: &mut Database,
        name: &str,
        email: &str,
        password: &str,
        avatar: &Option<String>,
        now: Timestamp,
    ) -> (r: Result<AuthResponse, AppError>)
        requires
            old(db).wf(),
            name@.len() > 0,
        ensures
            final(db).wf(),
            (r matches Err(AppError::Hashing) && final(db)@ == old(db)@) || exists|
                hash: Seq<char>,
                id: UserId,
            |
                spec_verify_password(password@, hash) == Ok::<bool, AppError>(true)
                    && #[trigger] spec_register(
                    self.secret(),
                    self.lifetime(),
                    old(db)@,
                    draft_of(name@, email@, hash, opt_text(*avatar)),
                    id,
                    now,
                ) == (ok_view(r), final(db)@),
            row_by_email(old(db)@, email@) is Some ==> final(db)@ == old(db)@ && (r matches Err(
                AppError::DuplicateEmail,
            ) || r matches Err(AppError::Hashing)),
            r matches Ok(response) ==> response.user.is_active && response.user.email@ == email@
                && response.user.name@ == name@,
    {
        let draft: NewUser = match self.prepare_registration(name, email, password, avatar) {
            Ok(draft) => draft,
            Err(e) => {
                return Err(e);
            },
        };
        let id: UserId = UserId::random();
        let inserted: Result<User, AppError> = db.insert_user(&draft, id, now);
        let r = self.complete_registration(inserted, now);
        proof {
            let hash = draft.password_hash@;
            let d = draft_of(name@, email@, hash, opt_text(*avatar));
            assert(draft@ == d);
            assert(final(db)@ == spec_insert(old(db)@, d, id, now).1);
            assert(spec_register(self.secret(), self.lifetime(), old(db)@, d, id, now) == (
                ok_view(r),
                final(db)@,
            ));
        }
        r
    }

    /// The steps of a login that follow the lookup of the email, for what
    /// the lookup gave: a failure of the lookup is handed on as it is.
    pub fn check_login(
        &self,
        found: Result<Option<User>, AppError>,
        password: &str,
        now: Timestamp,
    ) -> (r: Result<AuthResponse, AppError>)
        ensures
            ok_view(r) == spec_login(
                self.secret(),
                self.lifetime(),
                found_view(found),
                password@,
                now,
            ),
    {
        let user: User = match found {
            Ok(Some(user)) => user,
            Ok(None) => {
                return Err(AppError::InvalidCredentials);
            },
            Err(e) => {
                return Err(e);
            },
        };
        if !user.is_active {
            return Err(AppError::AccountInactive);
        }
        match self.hasher.verify(password, user.password_hash.as_str()) {
            Ok(true) => self.respond(&user, now),
            Ok(false) => Err(AppError::InvalidCredentials),
            Err(e) => Err(e),
        }
    }

    /// Logs a user in: looks the email up, checks the password against the
    /// stored hash, issues a token. The answer never holds the hash.
    pub fn login(&self, db: &Database, email: &str, password: &str, now: Timestamp) -> (r: Result<
        AuthResponse,
        AppError,
    >)
        ensures
            ok_view(r) == spec_login(
                self.secret(),
                self.lifetime(),
                spec_find_by_email(db@, email@),
                password@,
                now,
            ),
    {
        self.check_login(db.find_user_by_email(email), password, now)
    }

    /// Checks a token at the moment `now` and gives the identifier of its
    /// user.
    pub fn authenticate(&self, token: &str, now: Timestamp) -> (r: Result<UserId, AppError>)
        ensures
            r == spec_verify(self.secret(), token@, now.secs()),
    {
        self.tokens.verify(token, now.seconds())
    }

    /// The step that follows the lookup of a token's subject, for what the
    /// lookup gave: the user without the hash, `UserNotFound` where the user
    /// is gone, and a failure of the lookup as it is.
    pub fn resolve_user(found: Result<Option<User>, AppError>) -> (r: Result<PublicUser, AppError>)
        ensures
            ok_view(r) == spec_resolve(found_view(found)),
    {
        match found {
            Ok(Some(user)) => Ok(user.to_public()),
            Ok(None) => Err(AppError::UserNotFound),
            Err(e) => Err(e),
        }
    }

    /// Finds the user that a token belongs to: checks the token, then looks
    /// its subject up. The answer never holds the hash.
    pub fn me(&self, db: &Database, token: &str, now: Timestamp) -> (r: Result<
        PublicUser,
        AppError,
    >)
        ensures
            ok_view(r) == spec_me(self.secret(), db@, token@, now),
    {
        let id: UserId = match self.authenticate(token, now) {
            Ok(id) => id,
            Err(e) => {
                return Err(e);
            },
        };
        Self::resolve_user(db.find_user_by_id(&id))
    }
}

/// After a user was stored, a second registration with the same email fails
/// with `DuplicateEmail`, whatever name, password and avatar it brings; the
/// table stays as it was, with exactly one row for that email.
pub proof fn lemma_second_registration_is_refused(
    secret: Seq<char>,
    lifetime: int,
    rows: Seq<RowView>,
    first: NewUserView,
    first_id: UserId,
    first_now: Timestamp,
    second: NewUserView,
    second_id: UserId,
    second_now: Timestamp,
)
    requires
        first.email == second.email,
        spec_insert(rows, first, first_id, first_now).0 is Ok,
    ensures
        spec_register(
            secret,
            lifetime,
            spec_register(secret, lifetime, rows, first, first_id, first_now).1,
            second,
            second_id,
            second_now,
        ) == (
            Err::<AuthResponseView, AppError>(AppError::DuplicateEmail),
            spec_register(secret, lifetime, rows, first, first_id, first_now).1,
        ),
        count_email(
            spec_register(secret, lifetime, rows, first, first_id, first_now).1,
            first.email,
        ) == 1,
{
    lemma_second_insert_is_refused(
        rows,
        first,
        first_id,
        first_now,
        second,
        second_id,
        second_now,
    );
}

/// A login with an email that is not stored, and a login of an active user
/// with a password that does not match, fail in the same way: with
/// `InvalidCredentials`.
pub proof fn lemma_login_failures_are_alike(
    secret: Seq<char>,
    lifetime: int,
    rows: Seq<RowView>,
    unknown_email: Seq<char>,
    known_email: Seq<char>,
    any_password: Seq<char>,
    wrong_password: Seq<char>,
    now: Timestamp,
)
    requires
        row_by_email(rows, unknown_email) is None,
        spec_find_by_email(rows, known_email) matches Ok(Some(user)) && user.is_active
            && spec_verify_password(wrong_password, user.password_hash) == Ok::<bool, AppError>(
            false,
        ),
    ensures
        spec_login(secret, lifetime, spec_find_by_email(rows, unknown_email), any_password, now)
            == Err::<AuthResponseView, AppError>(AppError::InvalidCredentials),
        spec_login(secret, lifetime, spec_find_by_email(rows, known_email), wrong_password, now)
            == Err::<AuthResponseView, AppError>(AppError::InvalidCredentials),
{
}

/// A token that was issued to a user, presented before its expiry when no
/// row of the table holds the user's identifier any more, is answered with
/// `UserNotFound`.
pub proof fn lemma_token_outlives_user(
    secret: Seq<char>,
    lifetime: int,
    rows: Seq<RowView>,
    id: UserId,
    issued: Timestamp,
    now: Timestamp,
)
    requires
        i64::MIN <= issued.secs() + lifetime <= i64::MAX,
        spec_issue(secret, lifetime, id.value, issued.secs()) is Ok,
        now.secs() < issued.secs() + lifetime,
        row_by_id(rows, hyphenated(id.value)) is None,
    ensures
        spec_me(secret, rows, spec_issue(secret, lifetime, id.value, issued.secs())->Ok_0, now)
            == Err::<PublicUserView, AppError>(AppError::UserNotFound),
{
    lemma_parts_fit(issued);
    lemma_issued_token_lifetime(secret, lifetime, id.value, issued.secs(), now.secs());
}

} // verus!
