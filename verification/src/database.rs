//! The user table: rows keyed by identifier, with no email stored twice.
//!
//! The table is held in memory. It states what the service relies on of any
//! store: lookups by email and by identifier, and an insert that refuses a
//! second row with the same email.

use vstd::prelude::*;
use crate::errors::{found_view, ok_view, AppError};
use crate::ident::{hyphenated, UserId};
use crate::text::{chars_of, contains_text, find_text};
use crate::timestamp::Timestamp;
use crate::user::{
    created, created_user, decode_row, encode_row, row_for, user_from_row, NewUser, NewUserView,
    RowView, User, UserRow, UserView,
};

verus! {

/// The views of the rows.
pub open spec fn row_views(rows: Seq<UserRow>) -> Seq<RowView> {
    Seq::new(rows.len(), |i: int| rows[i]@)
}

/// The row with the given email: the last one, where there are several.
pub open spec fn row_by_email(rows: Seq<RowView>, email: Seq<char>) -> Option<RowView>
    decreases rows.len(),
{
    if rows.len() == 0 {
        None
    } else if rows.last().email == email {
        Some(rows.last())
    } else {
        row_by_email(rows.drop_last(), email)
    }
}

/// The row with the given identifier text: the last one, where there are
/// several.
pub open spec fn row_by_id(rows: Seq<RowView>, id: Seq<char>) -> Option<RowView>
    decreases rows.len(),
{
    if rows.len() == 0 {
        None
    } else if rows.last().id == id {
        Some(rows.last())
    } else {
        row_by_id(rows.drop_last(), id)
    }
}

/// How many rows hold the given email.
pub open spec fn count_email(rows: Seq<RowView>, email: Seq<char>) -> nat
    decreases rows.len(),
{
    if rows.len() == 0 {
        0
    } else if rows.last().email == email {
        count_email(rows.drop_last(), email) + 1
    } else {
        count_email(rows.drop_last(), email)
    }
}

/// True when no email and no identifier is stored twice.
pub open spec fn unique_keys(rows: Seq<RowView>) -> bool {
    forall|i: int, j: int|
        0 <= i < j < rows.len() ==> (#[trigger] rows[i]).email != (#[trigger] rows[j]).email
            && rows[i].id != rows[j].id
}

/// True when every row holds a name.
pub open spec fn names_present(rows: Seq<RowView>) -> bool {
    forall|i: int| 0 <= i < rows.len() ==> (#[trigger] rows[i]).name.len() > 0
}

/// What a lookup gives for the row that was found, or for none.
pub open spec fn decode_found(found: Option<RowView>) -> Result<Option<UserView>, AppError> {
    match found {
        Some(row) => match decode_row(row) {
            Ok(user) => Ok(Some(user)),
            Err(e) => Err(e),
        },
        None => Ok(None),
    }
}

/// What looking an email up gives.
pub open spec fn spec_find_by_email(rows: Seq<RowView>, email: Seq<char>) -> Result<
    Option<UserView>,
    AppError,
> {
    decode_found(row_by_email(rows, email))
}

/// What looking an identifier up gives.
pub open spec fn spec_find_by_id(rows: Seq<RowView>, id: UserId) -> Result<
    Option<UserView>,
    AppError,
> {
    decode_found(row_by_id(rows, hyphenated(id.value)))
}

/// What inserting gives, and the rows afterwards: a taken email is
/// `DuplicateEmail`, a taken identifier is `Storage`, and both leave the rows
/// as they were; else the new row is added at the end.
pub open spec fn spec_insert(
    rows: Seq<RowView>,
    draft: NewUserView,
    id: UserId,
    now: Timestamp,
) -> (Result<UserView, AppError>, Seq<RowView>) {
    if row_by_email(rows, draft.email) is Some {
        (Err(AppError::DuplicateEmail), rows)
    } else if row_by_id(rows, hyphenated(id.value)) is Some {
        (Err(AppError::Storage), rows)
    } else {
        (Ok(created(draft, id, now)), rows.push(encode_row(draft, id, now)))
    }
}

/// No row is found for an email exactly when no row holds it, and then the
/// count is zero.
pub proof fn lemma_absent_email(rows: Seq<RowView>, email: Seq<char>)
    ensures
        row_by_email(rows, email) is None <==> forall|i: int|
            0 <= i < rows.len() ==> (#[trigger] rows[i]).email != email,
        row_by_email(rows, email) is None <==> count_email(rows, email) == 0,
        row_by_email(rows, email) matches Some(row) ==> row.email == email && exists|i: int|
            0 <= i < rows.len() && rows[i] == row,
    decreases rows.len(),
{
    if rows.len() > 0 {
        let front = rows.drop_last();
        lemma_absent_email(front, email);
        if rows.last().email == email {
            assert(rows[rows.len() - 1].email == email);
            assert(rows[rows.len() - 1] == rows.last());
        } else {
            assert forall|i: int| 0 <= i < front.len() implies front[i] == rows[i] by {}
            if row_by_email(front, email) is None {
                assert forall|i: int| 0 <= i < rows.len() implies (#[trigger] rows[i]).email
                    != email by {
                    if i < front.len() {
                        assert(front[i] == rows[i]);
                    }
                }
            } else {
                let row = row_by_email(front, email)->Some_0;
                let k = choose|i: int| 0 <= i < front.len() && front[i] == row;
                assert(rows[k] == row);
            }
        }
    }
}

/// No row is found for an identifier text exactly when no row holds it.
pub proof fn lemma_absent_id(rows: Seq<RowView>, id: Seq<char>)
    ensures
        row_by_id(rows, id) is None <==> forall|i: int|
            0 <= i < rows.len() ==> (#[trigger] rows[i]).id != id,
        row_by_id(rows, id) matches Some(row) ==> row.id == id,
    decreases rows.len(),
{
    if rows.len() > 0 {
        let front = rows.drop_last();
        lemma_absent_id(front, id);
        if rows.last().id == id {
            assert(rows[rows.len() - 1].id == id);
        } else {
            if row_by_id(front, id) is None {
                assert forall|i: int| 0 <= i < rows.len() implies (#[trigger] rows[i]).id
                    != id by {
                    if i < front.len() {
                        assert(front[i] == rows[i]);
                    }
                }
            } else {
                assert(exists|i: int| 0 <= i < front.len() && (#[trigger] front[i]).id == id);
                let k = choose|i: int| 0 <= i < front.len() && (#[trigger] front[i]).id == id;
                assert(rows[k].id == id);
            }
        }
    }
}

/// An insert keeps every email and every identifier single, and an insert
/// of a user with a name keeps every row with a name.
pub proof fn lemma_insert_keeps_table_sound(
    rows: Seq<RowView>,
    draft: NewUserView,
    id: UserId,
    now: Timestamp,
)
    requires
        unique_keys(rows),
    ensures
        unique_keys(spec_insert(rows, draft, id, now).1),
        names_present(rows) && draft.name.len() > 0 ==> names_present(
            spec_insert(rows, draft, id, now).1,
        ),
{
    let after = spec_insert(rows, draft, id, now).1;
    if spec_insert(rows, draft, id, now).0 is Ok {
        let row = encode_row(draft, id, now);
        lemma_absent_email(rows, draft.email);
        lemma_absent_id(rows, hyphenated(id.value));
        assert forall|i: int, j: int| 0 <= i < j < after.len() implies (#[trigger] after[i]).email
            != (#[trigger] after[j]).email && after[i].id != after[j].id by {
            assert(after[i] == rows[i]);
            if j < rows.len() {
                assert(after[j] == rows[j]);
            } else {
                assert(after[j] == row);
            }
        }
        if names_present(rows) && draft.name.len() > 0 {
            assert forall|i: int| 0 <= i < after.len() implies (#[trigger] after[i]).name.len()
                > 0 by {
                if i < rows.len() {
                    assert(after[i] == rows[i]);
                }
            }
        }
    }
}

/// The message that the storage engine gives when a row would break a
/// uniqueness constraint holds this text.
pub open spec fn unique_violation() -> Seq<char> {
    "UNIQUE constraint failed"@
}

/// What a failed insert is reported as: `DuplicateEmail` where the message of
/// the storage engine speaks of a uniqueness constraint, `Storage` for every
/// other message.
pub fn classify_insert_failure(message: &str) -> (r: AppError)
    ensures
        r == (if contains_text(message@, unique_violation()) {
            AppError::DuplicateEmail
        } else {
            AppError::Storage
        }),
{
    let hay: Vec<char> = chars_of(message);
    let needle: Vec<char> = chars_of("UNIQUE constraint failed");
    if find_text(&hay, &needle) {
        AppError::DuplicateEmail
    } else {
        AppError::Storage
    }
}

/// What a lookup reports for the row that the storage engine found, or for
/// none.
pub fn user_from_found(found: Option<&UserRow>) -> (r: Result<Option<User>, AppError>)
    ensures
        found_view(r) == decode_found(
            match found {
                Some(row) => Some(row@),
                None => None,
            },
        ),
{
    match found {
        Some(row) => match user_from_row(row) {
            Ok(user) => Ok(Some(user)),
            Err(e) => Err(e),
        },
        None => Ok(None),
    }
}

/// The user table.
pub struct Database {
    rows: Vec<UserRow>,
}

impl View for Database {
    type V = Seq<RowView>;

    closed spec fn view(&self) -> Seq<RowView> {
        row_views(self.rows@)
    }
}

impl Database {
    /// True of a table in which no email and no identifier is stored twice
    /// and every user has a name. Every table that this module hands out is
    /// such a table.
    pub open spec fn wf(&self) -> bool {
        unique_keys(self@) && names_present(self@)
    }

    /// An empty table.
    pub fn new() -> (r: Database)
        ensures
            r@ == Seq::<RowView>::empty(),
            r.wf(),
    {
        let r = Database { rows: Vec::new() };
        proof {
            assert(row_views(r.rows@) =~= Seq::<RowView>::empty());
        }
        r
    }

    /// Whether the row at `j` holds the email or the identifier of a row
    /// before it.
    fn repeats_earlier_key(rows: &Vec<UserRow>, j: usize) -> (r: bool)
        requires
            j < rows.len(),
        ensures
            r == exists|i: int|
                0 <= i < j && ((#[trigger] rows[i])@.email == rows[j as int]@.email || rows[i]@.id
                    == rows[j as int]@.id),
    {
        let mut i: usize = 0;
        while i < j
            invariant
                i <= j < rows.len(),
                forall|k: int|
                    0 <= k < i ==> (#[trigger] rows[k])@.email != rows[j as int]@.email
                        && rows[k]@.id != rows[j as int]@.id,
            decreases j - i,
        {
            if rows[i].email == rows[j].email || rows[i].id == rows[j].id {
                return true;
            }
            i += 1;
        }
        false
    }

    /// The table that holds the given rows, in their order, where no email
    /// and no identifier occurs twice among them and none is without a name.
    /// Beyond that the rows are taken as they are: one that cannot be read
    /// shows when it is looked up.
    pub fn from_rows(rows: Vec<UserRow>) -> (r: Option<Database>)
        ensures
            r is Some <==> unique_keys(row_views(rows@)) && names_present(row_views(rows@)),
            r matches Some(db) ==> db@ == row_views(rows@) && db.wf(),
    {
        let ghost all = row_views(rows@);
        let mut j: usize = 0;
        while j < rows.len()
            invariant
                j <= rows.len(),
                all == row_views(rows@),
                forall|a: int, b: int|
                    0 <= a < b < j ==> (#[trigger] all[a]).email != (#[trigger] all[b]).email
                        && all[a].id != all[b].id,
                forall|a: int| 0 <= a < j ==> (#[trigger] all[a]).name.len() > 0,
            decreases rows.len() - j,
        {
            if rows[j].name.as_str().is_empty() {
                proof {
                    assert(all[j as int] == rows[j as int]@);
                }
                return None;
            }
            if Self::repeats_earlier_key(&rows, j) {
                proof {
                    let i = choose|i: int|
                        0 <= i < j && ((#[trigger] rows[i])@.email == rows[j as int]@.email
                            || rows[i]@.id == rows[j as int]@.id);
                    assert(all[i] == rows[i]@ && all[j as int] == rows[j as int]@);
                }
                return None;
            }
            proof {
                assert forall|a: int, b: int| 0 <= a < b < j + 1 implies (#[trigger] all[a]).email
                    != (#[trigger] all[b]).email && all[a].id != all[b].id by {
                    if b == j {
                        assert(all[a] == rows[a]@);
                    }
                }
                assert(all[j as int] == rows[j as int]@);
            }
            j += 1;
        }
        Some(Database { rows })
    }

    /// How many users are stored.
    pub fn len(&self) -> (r: usize)
        ensures
            r == self@.len(),
    {
        self.rows.len()
    }

    /// Where the row with the given email stands.
    fn position_by_email(&self, email: &String) -> (r: Option<usize>)
        ensures
            match r {
                Some(k) => k < self.rows.len() && row_by_email(self@, email@) == Some(
                    self.rows[k as int]@,
                ),
                None => row_by_email(self@, email@) is None,
            },
    {
        let ghost all = row_views(self.rows@);
        let mut found: Option<usize> = None;
        let mut i: usize = 0;
        while i < self.rows.len()
            invariant
                i <= self.rows.len(),
                all == row_views(self.rows@),
                match found {
                    Some(k) => k < i && row_by_email(all.take(i as int), email@) == Some(
                        self.rows[k as int]@,
                    ),
                    None => row_by_email(all.take(i as int), email@) is None,
                },
            decreases self.rows.len() - i,
        {
            proof {
                let next = all.take(i + 1);
                assert(next.drop_last() =~= all.take(i as int));
                assert(next.last() == self.rows[i as int]@);
            }
            if self.rows[i].email == *email {
                found = Some(i);
            }
            i += 1;
        }
        proof {
            assert(all.take(self.rows.len() as int) =~= all);
        }
        found
    }

    /// Where the row with the given identifier text stands.
    fn position_by_id(&self, id: &String) -> (r: Option<usize>)
        ensures
            match r {
                Some(k) => k < self.rows.len() && row_by_id(self@, id@) == Some(
                    self.rows[k as int]@,
                ),
                None => row_by_id(self@, id@) is None,
            },
    {
        let ghost all = row_views(self.rows@);
        let mut found: Option<usize> = None;
        let mut i: usize = 0;
        while i < self.rows.len()
            invariant
                i <= self.rows.len(),
                all == row_views(self.rows@),
                match found {
                    Some(k) => k < i && row_by_id(all.take(i as int), id@) == Some(
                        self.rows[k as int]@,
                    ),
                    None => row_by_id(all.take(i as int), id@) is None,
                },
            decreases self.rows.len() - i,
        {
            proof {
                let next = all.take(i + 1);
                assert(next.drop_last() =~= all.take(i as int));
                assert(next.last() == self.rows[i as int]@);
            }
            if self.rows[i].id == *id {
                found = Some(i);
            }
            i += 1;
        }
        proof {
            assert(all.take(self.rows.len() as int) =~= all);
        }
        found
    }

    /// Looks a user up by email: the email must be the same, character for
    /// character. No match is `Ok(None)`; a row that cannot be read is
    /// `Storage`.
    pub fn find_user_by_email(&self, email: &str) -> (r: Result<Option<User>, AppError>)
        ensures
            found_view(r) == spec_find_by_email(self@, email@),
            r matches Ok(Some(user)) ==> user.email@ == email@,
            self.wf() ==> (r matches Ok(Some(user)) ==> user.name@.len() > 0),
    {
        let wanted: String = email.to_owned();
        match self.position_by_email(&wanted) {
            Some(k) => {
                proof {
                    lemma_absent_email(self@, email@);
                    assert(self@[k as int] == self.rows[k as int]@);
                }
                user_from_found(Some(&self.rows[k]))
            },
            None => user_from_found(None),
        }
    }

    /// Looks a user up by identifier. No match is `Ok(None)`; a row that
    /// cannot be read is `Storage`.
    pub fn find_user_by_id(&self, id: &UserId) -> (r: Result<Option<User>, AppError>)
        ensures
            found_view(r) == spec_find_by_id(self@, *id),
            self.wf() ==> (r matches Ok(Some(user)) ==> user.name@.len() > 0),
    {
        let wanted: String = id.to_text();
        match self.position_by_id(&wanted) {
            Some(k) => {
                proof {
                    assert(self@[k as int] == self.rows[k as int]@);
                }
                user_from_found(Some(&self.rows[k]))
            },
            None => user_from_found(None),
        }
    }

    /// Stores a new user under the identifier `id`, created at the moment
    /// `now`. An email that is already stored is `DuplicateEmail`, an
    /// identifier that is already stored is `Storage`; the table is then left
    /// as it was. Afterwards both lookups give the user that was created.
    pub fn insert_user(&mut self, draft: &NewUser, id: UserId, now: Timestamp) -> (r: Result<
        User,
        AppError,
    >)
        requires
            old(self).wf(),
            draft.name@.len() > 0,
        ensures
            final(self).wf(),
            (ok_view(r), final(self)@) == spec_insert(old(self)@, draft@, id, now),
            r matches Ok(user) ==> spec_find_by_id(final(self)@, id) == Ok::<
                Option<UserView>,
                AppError,
            >(Some(user@)) && spec_find_by_email(final(self)@, draft.email@) == Ok::<
                Option<UserView>,
                AppError,
            >(Some(user@)),
    {
        proof {
            lemma_insert_keeps_table_sound(self@, draft@, id, now);
        }
        if self.position_by_email(&draft.email).is_some() {
            return Err(AppError::DuplicateEmail);
        }
        let row: UserRow = row_for(draft, id, now);
        if self.position_by_id(&row.id).is_some() {
            return Err(AppError::Storage);
        }
        let ghost before = row_views(self.rows@);
        self.rows.push(row);
        proof {
            let after = row_views(self.rows@);
            assert(after =~= before.push(encode_row(draft@, id, now)));
            assert(after.drop_last() =~= before);
        }
        Ok(created_user(draft, id, now))
    }

    /// Stores a new user under a freshly drawn identifier, created at the
    /// moment `now`. The outcome is that of `insert_user` with the
    /// identifier that was drawn, whichever it is: an email that is already
    /// stored is always `DuplicateEmail`.
    pub fn create_user(&mut self, draft: &NewUser, now: Timestamp) -> (r: Result<User, AppError>)
        requires
            old(self).wf(),
            draft.name@.len() > 0,
        ensures
            final(self).wf(),
            exists|id: UserId| #[trigger]
                spec_insert(old(self)@, draft@, id, now) == (ok_view(r), final(self)@),
            row_by_email(old(self)@, draft.email@) is Some <==> r matches Err(
                AppError::DuplicateEmail,
            ),
            r matches Ok(user) ==> spec_find_by_id(final(self)@, user.id) == Ok::<
                Option<UserView>,
                AppError,
            >(Some(user@)) && spec_find_by_email(final(self)@, draft.email@) == Ok::<
                Option<UserView>,
                AppError,
            >(Some(user@)),
    {
        let id: UserId = UserId::random();
        self.insert_user(draft, id, now)
    }
}

/// After a user was stored, a second insert with the same email is refused as
/// `DuplicateEmail`, whatever else it holds; the table stays as the first
/// insert left it, with exactly one row for that email.
pub proof fn lemma_second_insert_is_refused(
    rows: Seq<RowView>,
    first: NewUserView,
    first_id: UserId,
    first_now: Timestamp,
    second: NewUserView,
    second_id: UserId,
    second_now: Timestamp,
)
    requires
        first.email == second.email,
        spec_insert(rows, first, first_id, first_now).0 is Ok,
    ensures
        spec_insert(
            spec_insert(rows, first, first_id, first_now).1,
            second,
            second_id,
            second_now,
        ) == (
            Err::<UserView, AppError>(AppError::DuplicateEmail),
            spec_insert(rows, first, first_id, first_now).1,
        ),
        count_email(spec_insert(rows, first, first_id, first_now).1, first.email) == 1,
{
    let row = encode_row(first, first_id, first_now);
    let after = spec_insert(rows, first, first_id, first_now).1;
    assert(after == rows.push(row));
    assert(after.drop_last() =~= rows);
    assert(after.last() == row);
    lemma_absent_email(rows, first.email);
}

/// After an insert that succeeds, where the stored row reads back as the
/// user that was created, both lookups give that user.
pub proof fn lemma_lookup_after_insert(
    rows: Seq<RowView>,
    draft: NewUserView,
    id: UserId,
    now: Timestamp,
)
    requires
        spec_insert(rows, draft, id, now).0 is Ok,
        decode_row(encode_row(draft, id, now)) == Ok::<UserView, AppError>(
            created(draft, id, now),
        ),
    ensures
        spec_find_by_id(spec_insert(rows, draft, id, now).1, id) == Ok::<
            Option<UserView>,
            AppError,
        >(Some(created(draft, id, now))),
        spec_find_by_email(spec_insert(rows, draft, id, now).1, draft.email) == Ok::<
            Option<UserView>,
            AppError,
        >(Some(created(draft, id, now))),
{
    let row = encode_row(draft, id, now);
    let after = spec_insert(rows, draft, id, now).1;
    assert(after.last() == row);
}

} // verus!
