//! User records: as the service holds them, as a caller sees them, as they
//! are handed in for creation, and as the table stores them.

use vstd::prelude::*;
use crate::errors::{ok_view, AppError};
use crate::ident::{hyphenated, spec_parse_id, UserId};
use crate::text::opt_text;
use crate::timestamp::{rfc3339_text, spec_parse, Timestamp};

verus! {

/// A copy of a text that may be missing.
pub fn copy_text(value: &Option<String>) -> (r: Option<String>)
    ensures
        r == *value,
{
    match value {
        Some(s) => Some(s.clone()),
        None => None,
    }
}

/// A registered account.
#[derive(Debug, PartialEq, Eq)]
pub struct User {
    /// Set by the table when the user is created, and never changed. A user
    /// that is not stored yet is a `NewUser`, which has none.
    pub id: UserId,
    pub name: String,
    pub email: String,
    /// What the hasher made of the password. Never shown to a caller.
    pub password_hash: String,
    pub avatar: Option<String>,
    pub created_at: Timestamp,
    pub updated_at: Timestamp,
    /// Only an active user can log in.
    pub is_active: bool,
}

/// A user, as plain values.
pub struct UserView {
    pub id: UserId,
    pub name: Seq<char>,
    pub email: Seq<char>,
    pub password_hash: Seq<char>,
    pub avatar: Option<Seq<char>>,
    pub created_at: Timestamp,
    pub updated_at: Timestamp,
    pub is_active: bool,
}

impl View for User {
    type V = UserView;

    open spec fn view(&self) -> UserView {
        UserView {
            id: self.id,
            name: self.name@,
            email: self.email@,
            password_hash: self.password_hash@,
            avatar: opt_text(self.avatar),
            created_at: self.created_at,
            updated_at: self.updated_at,
            is_active: self.is_active,
        }
    }
}

impl Clone for User {
    fn clone(&self) -> (r: Self)
        ensures
            r == *self,
    {
        User {
            id: self.id,
            name: self.name.clone(),
            email: self.email.clone(),
            password_hash: self.password_hash.clone(),
            avatar: copy_text(&self.avatar),
            created_at: self.created_at,
            updated_at: self.updated_at,
            is_active: self.is_active,
        }
    }
}

/// What a caller is shown of a stored user: everything but the hash.
#[derive(Debug, PartialEq, Eq)]
pub struct PublicUser {
    pub id: UserId,
    pub name: String,
    pub email: String,
    pub avatar: Option<String>,
    pub created_at: Timestamp,
    pub updated_at: Timestamp,
    pub is_active: bool,
}

/// What a caller is shown, as plain values.
pub struct PublicUserView {
    pub id: UserId,
    pub name: Seq<char>,
    pub email: Seq<char>,
    pub avatar: Option<Seq<char>>,
    pub created_at: Timestamp,
    pub updated_at: Timestamp,
    pub is_active: bool,
}

impl View for PublicUser {
    type V = PublicUserView;

    open spec fn view(&self) -> PublicUserView {
        PublicUserView {
            id: self.id,
            name: self.name@,
            email: self.email@,
            avatar: opt_text(self.avatar),
            created_at: self.created_at,
            updated_at: self.updated_at,
            is_active: self.is_active,
        }
    }
}

/// What is shown of a stored user.
pub open spec fn public_view(user: UserView) -> PublicUserView {
    PublicUserView {
        id: user.id,
        name: user.name,
        email: user.email,
        avatar: user.avatar,
        created_at: user.created_at,
        updated_at: user.updated_at,
        is_active: user.is_active,
    }
}

impl User {
    /// The user without the hash, for a caller to see.
    pub fn to_public(&self) -> (r: PublicUser)
        ensures
            r@ == public_view(self@),
    {
        PublicUser {
            id: self.id,
            name: self.name.clone(),
            email: self.email.clone(),
            avatar: copy_text(&self.avatar),
            created_at: self.created_at,
            updated_at: self.updated_at,
            is_active: self.is_active,
        }
    }
}

/// A user that is handed in to be created: no identifier and no timestamps
/// yet.
#[derive(Debug, PartialEq, Eq)]
pub struct NewUser {
    pub name: String,
    pub email: String,
    pub password_hash: String,
    pub avatar: Option<String>,
    pub is_active: bool,
}

/// A user to be created, as plain values.
pub struct NewUserView {
    pub name: Seq<char>,
    pub email: Seq<char>,
    pub password_hash: Seq<char>,
    pub avatar: Option<Seq<char>>,
    pub is_active: bool,
}

impl View for NewUser {
    type V = NewUserView;

    open spec fn view(&self) -> NewUserView {
        NewUserView {
            name: self.name@,
            email: self.email@,
            password_hash: self.password_hash@,
            avatar: opt_text(self.avatar),
            is_active: self.is_active,
        }
    }
}

/// The user that creating `draft` at the moment `now` under the identifier
/// `id` gives.
pub open spec fn created(draft: NewUserView, id: UserId, now: Timestamp) -> UserView {
    UserView {
        id,
        name: draft.name,
        email: draft.email,
        password_hash: draft.password_hash,
        avatar: draft.avatar,
        created_at: now,
        updated_at: now,
        is_active: draft.is_active,
    }
}

/// A user as the table stores it: the identifier and the timestamps as text,
/// the flag as a number.
#[derive(Debug, PartialEq, Eq)]
pub struct UserRow {
    pub id: String,
    pub name: String,
    pub email: String,
    pub password_hash: String,
    pub avatar: Option<String>,
    pub created_at: String,
    pub updated_at: String,
    pub is_active: i64,
}

/// A stored row, as plain values.
pub struct RowView {
    pub id: Seq<char>,
    pub name: Seq<char>,
    pub email: Seq<char>,
    pub password_hash: Seq<char>,
    pub avatar: Option<Seq<char>>,
    pub created_at: Seq<char>,
    pub updated_at: Seq<char>,
    pub is_active: i64,
}

impl View for UserRow {
    type V = RowView;

    open spec fn view(&self) -> RowView {
        RowView {
            id: self.id@,
            name: self.name@,
            email: self.email@,
            password_hash: self.password_hash@,
            avatar: opt_text(self.avatar),
            created_at: self.created_at@,
            updated_at: self.updated_at@,
            is_active: self.is_active,
        }
    }
}

/// The row that is stored for a user created from `draft`.
pub open spec fn encode_row(draft: NewUserView, id: UserId, now: Timestamp) -> RowView {
    RowView {
        id: hyphenated(id.value),
        name: draft.name,
        email: draft.email,
        password_hash: draft.password_hash,
        avatar: draft.avatar,
        created_at: rfc3339_text(now.secs(), now.nanos()),
        updated_at: rfc3339_text(now.secs(), now.nanos()),
        is_active: if draft.is_active {
            1
        } else {
            0
        },
    }
}

/// The user that a stored row stands for. A row whose identifier or
/// timestamps cannot be read is a `Storage` failure, never a guess. The flag
/// is set for every number but zero.
pub open spec fn decode_row(row: RowView) -> Result<UserView, AppError> {
    match (spec_parse_id(row.id), spec_parse(row.created_at), spec_parse(row.updated_at)) {
        (Some(id), Some(created_at), Some(updated_at)) => Ok(
            UserView {
                id,
                name: row.name,
                email: row.email,
                password_hash: row.password_hash,
                avatar: row.avatar,
                created_at,
                updated_at,
                is_active: row.is_active != 0,
            },
        ),
        _ => Err(AppError::Storage),
    }
}

/// Reads a stored row back into a user.
pub fn user_from_row(row: &UserRow) -> (r: Result<User, AppError>)
    ensures
        ok_view(r) == decode_row(row@),
{
    let id: UserId = match UserId::parse(row.id.as_str()) {
        Some(id) => id,
        None => {
            return Err(AppError::Storage);
        },
    };
    let created_at: Timestamp = match Timestamp::parse_rfc3339(row.created_at.as_str()) {
        Some(t) => t,
        None => {
            return Err(AppError::Storage);
        },
    };
    let updated_at: Timestamp = match Timestamp::parse_rfc3339(row.updated_at.as_str()) {
        Some(t) => t,
        None => {
            return Err(AppError::Storage);
        },
    };
    Ok(
        User {
            id,
            name: row.name.clone(),
            email: row.email.clone(),
            password_hash: row.password_hash.clone(),
            avatar: copy_text(&row.avatar),
            created_at,
            updated_at,
            is_active: row.is_active != 0,
        },
    )
}

/// Makes the row that is stored for a user created from `draft` at the
/// moment `now` under the identifier `id`. Reading the row gives that user.
pub fn row_for(draft: &NewUser, id: UserId, now: Timestamp) -> (r: UserRow)
    ensures
        r@ == encode_row(draft@, id, now),
        decode_row(r@) == Ok::<UserView, AppError>(created(draft@, id, now)),
{
    UserRow {
        id: id.to_text(),
        name: draft.name.clone(),
        email: draft.email.clone(),
        password_hash: draft.password_hash.clone(),
        avatar: copy_text(&draft.avatar),
        created_at: now.to_rfc3339(),
        updated_at: now.to_rfc3339(),
        is_active: if draft.is_active {
            1
        } else {
            0
        },
    }
}

/// The user that was created from `draft`.
pub fn created_user(draft: &NewUser, id: UserId, now: Timestamp) -> (r: User)
    ensures
        r@ == created(draft@, id, now),
{
    User {
        id,
        name: draft.name.clone(),
        email: draft.email.clone(),
        password_hash: draft.password_hash.clone(),
        avatar: copy_text(&draft.avatar),
        created_at: now,
        updated_at: now,
        is_active: draft.is_active,
    }
}

} // verus!
