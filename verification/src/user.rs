//! The users table and its handlers: signup, login, fetch by id, and the
//! helpers that read the table for them.

use vstd::prelude::*;

use crate::response::{ApiResponse, ApiResponseView, Body, BodyView};
use crate::text::{byte_len, password_long_enough, trim_spec};

verus! {

/// A stored user row. The password is stored and compared as plain text,
/// exactly as the handlers behave today.
pub struct User {
    pub id: i32,
    pub name: String,
    pub email: String,
    pub password: String,
}

/// The body of a signup request.
pub struct NewUser {
    pub name: String,
    pub email: String,
    pub password: String,
}

/// The body of a login request.
pub struct ExistingUser {
    pub email: String,
    pub password: String,
}

/// What a fetch-by-id answers: the row without its password.
pub struct UserResponse {
    pub id: i32,
    pub email: String,
    pub name: String,
}

/// Mathematical image of a stored row.
#[verifier::ext_equal]
pub ghost struct UserView {
    pub id: int,
    pub name: Seq<char>,
    pub email: Seq<char>,
    pub password: Seq<char>,
}

impl View for User {
    type V = UserView;

    open spec fn view(&self) -> UserView {
        UserView { id: self.id as int, name: self.name@, email: self.email@, password: self.password@ }
    }
}

/// Mathematical image of a signup request.
#[verifier::ext_equal]
pub ghost struct NewUserView {
    pub name: Seq<char>,
    pub email: Seq<char>,
    pub password: Seq<char>,
}

impl View for NewUser {
    type V = NewUserView;

    open spec fn view(&self) -> NewUserView {
        NewUserView { name: self.name@, email: self.email@, password: self.password@ }
    }
}

/// Mathematical image of a login request.
#[verifier::ext_equal]
pub ghost struct ExistingUserView {
    pub email: Seq<char>,
    pub password: Seq<char>,
}

impl View for ExistingUser {
    type V = ExistingUserView;

    open spec fn view(&self) -> ExistingUserView {
        ExistingUserView { email: self.email@, password: self.password@ }
    }
}

/// Mathematical image of a fetch-by-id answer.
#[verifier::ext_equal]
pub ghost struct UserResponseView {
    pub id: int,
    pub email: Seq<char>,
    pub name: Seq<char>,
}

impl View for UserResponse {
    type V = UserResponseView;

    open spec fn view(&self) -> UserResponseView {
        UserResponseView { id: self.id as int, email: self.email@, name: self.name@ }
    }
}

/// Image of a sequence of rows.
pub open spec fn users_view(rows: Seq<User>) -> Seq<UserView> {
    Seq::new(rows.len(), |i: int| rows[i]@)
}

/// The users table: the rows in insertion order and the next id the
/// auto-increment counter will hand out.
pub struct UserTable {
    pub rows: Vec<User>,
    pub next_id: i32,
}

/// Mathematical image of the table.
#[verifier::ext_equal]
pub ghost struct UserTableView {
    pub rows: Seq<UserView>,
    pub next_id: int,
}

impl View for UserTable {
    type V = UserTableView;

    open spec fn view(&self) -> UserTableView {
        UserTableView { rows: users_view(self.rows@), next_id: self.next_id as int }
    }
}

/// Well-formedness: ids are positive, below the counter, and pairwise
/// distinct; emails are pairwise distinct, which signup's pre-check keeps.
pub open spec fn user_table_wf(t: UserTableView) -> bool {
    &&& 1 <= t.next_id <= i32::MAX as int
    &&& forall|i: int, j: int|
        0 <= i < j < t.rows.len() ==> t.rows[i].id != t.rows[j].id
    &&& forall|i: int| 0 <= i < t.rows.len() ==> 0 < #[trigger] t.rows[i].id < t.next_id
    &&& forall|i: int, j: int|
        0 <= i < j < t.rows.len() ==> t.rows[i].email != t.rows[j].email
}

impl UserTable {
    /// Well-formedness of the table.
    pub open spec fn wf(&self) -> bool {
        user_table_wf(self@)
    }

    /// An empty table, as a freshly created database starts.
    pub fn new() -> (t: UserTable)
        ensures
            t.wf(),
            t@.rows.len() == 0,
            t@.next_id == 1,
    {
        UserTable { rows: Vec::new(), next_id: 1 }
    }
}

/// The emails of the rows, in row order.
pub open spec fn emails_of(rows: Seq<UserView>) -> Seq<Seq<char>> {
    Seq::new(rows.len(), |i: int| rows[i].email)
}

/// Whether some row carries this email.
pub open spec fn email_in(rows: Seq<UserView>, email: Seq<char>) -> bool {
    exists|i: int| 0 <= i < rows.len() && rows[i].email == email
}

/// Index of the row carrying this email; with distinct emails there is at
/// most one.
pub open spec fn email_index(rows: Seq<UserView>, email: Seq<char>) -> int {
    choose|i: int| 0 <= i < rows.len() && rows[i].email == email
}

/// Whether some row carries this id.
pub open spec fn user_in(rows: Seq<UserView>, id: int) -> bool {
    exists|i: int| 0 <= i < rows.len() && rows[i].id == id
}

/// Index of the row carrying this id; with distinct ids there is at most one.
pub open spec fn user_index(rows: Seq<UserView>, id: int) -> int {
    choose|i: int| 0 <= i < rows.len() && rows[i].id == id
}

/// A row without its password.
pub open spec fn user_response_of(u: UserView) -> UserResponseView {
    UserResponseView { id: u.id, email: u.email, name: u.name }
}

/// Whether a signup password passes the length rule: at least eight bytes
/// once surrounding whitespace is trimmed.
pub open spec fn password_ok(password: Seq<char>) -> bool {
    byte_len(trim_spec(password)) >= 8
}

/// What signup does: reject a taken email with 400, then a short password
/// with 400, otherwise store the row under the next id and answer 200.
pub open spec fn spec_sign_up(t: UserTableView, u: NewUserView) -> (
    UserTableView,
    ApiResponseView,
) {
    if email_in(t.rows, u.email) {
        (
            t,
            ApiResponseView {
                status: 400,
                body: BodyView::Message("User with this email already exists!"@),
            },
        )
    } else if !password_ok(u.password) {
        (
            t,
            ApiResponseView {
                status: 400,
                body: BodyView::Message("Password cannot be less than 8 characters!"@),
            },
        )
    } else {
        (
            UserTableView {
                rows: t.rows.push(
                    UserView { id: t.next_id, name: u.name, email: u.email, password: u.password },
                ),
                next_id: t.next_id + 1,
            },
            ApiResponseView { status: 200, body: BodyView::Text("User added successfully!"@) },
        )
    }
}

/// What login answers: 404 when no row carries the email, 200 when the
/// stored password equals the submitted one, 401 otherwise.
pub open spec fn spec_login(t: UserTableView, u: ExistingUserView) -> ApiResponseView {
    if !email_in(t.rows, u.email) {
        ApiResponseView { status: 404, body: BodyView::Message("No user found!"@) }
    } else if t.rows[email_index(t.rows, u.email)].password == u.password {
        ApiResponseView { status: 200, body: BodyView::Message("Logged in successfully."@) }
    } else {
        ApiResponseView { status: 401, body: BodyView::Message("Incorrect passsword!"@) }
    }
}

/// What the fetch-by-id helper returns: the row without its password, when
/// the id is present.
pub open spec fn spec_get_user_by_id(t: UserTableView, id: int) -> Option<UserResponseView> {
    if user_in(t.rows, id) {
        Option::Some(user_response_of(t.rows[user_index(t.rows, id)]))
    } else {
        Option::None
    }
}

/// What the fetch-by-id handler answers: 200 with the password-free row, or
/// 404 when the id is absent.
pub open spec fn spec_get_user(t: UserTableView, id: int) -> ApiResponseView {
    match spec_get_user_by_id(t, id) {
        Option::Some(u) => ApiResponseView { status: 200, body: BodyView::User(u) },
        Option::None => ApiResponseView {
            status: 404,
            body: BodyView::Message("No user found for provided ID!"@),
        },
    }
}

/// Image of a list of strings.
pub open spec fn strings_view(v: Seq<String>) -> Seq<Seq<char>> {
    Seq::new(v.len(), |i: int| v[i]@)
}

/// Image of an optional fetch-by-id answer.
pub open spec fn opt_response_view(r: Option<UserResponse>) -> Option<UserResponseView> {
    match r {
        Option::Some(u) => Option::Some(u@),
        Option::None => Option::None,
    }
}

/// The email of every stored user, in row order.
pub fn get_all_users(table: &UserTable) -> (r: Vec<String>)
    ensures
        strings_view(r@) == emails_of(table@.rows),
{
    let n = table.rows.len();
    let mut list: Vec<String> = Vec::new();
    let mut i: usize = 0;
    while i < n
        invariant
            n == table.rows@.len(),
            0 <= i <= n,
            list@.len() == i,
            forall|j: int| 0 <= j < i ==> #[trigger] list@[j]@ == table@.rows[j].email,
        decreases n - i,
    {
        list.push(table.rows[i].email.clone());
        i = i + 1;
    }
    proof {
        assert(strings_view(list@) =~= emails_of(table@.rows));
    }
    list
}

/// Whether some entry of the list reads as this email.
pub open spec fn email_listed(emails: Seq<String>, email: Seq<char>) -> bool {
    exists|i: int| 0 <= i < emails.len() && (#[trigger] emails[i])@ == email
}

/// An email stands in the fetched list exactly when a row carries it.
pub proof fn lemma_email_listed_in_table(emails: Seq<String>, rows: Seq<UserView>, email: Seq<char>)
    requires
        strings_view(emails) == emails_of(rows),
    ensures
        email_listed(emails, email) == email_in(rows, email),
{
    assert(strings_view(emails).len() == emails.len());
    assert(emails_of(rows).len() == rows.len());
    assert(emails.len() == rows.len());
    if email_listed(emails, email) {
        let k = choose|i: int| 0 <= i < emails.len() && (#[trigger] emails[i])@ == email;
        assert(strings_view(emails)[k] == emails[k]@);
        assert(emails_of(rows)[k] == rows[k].email);
        assert(rows[k].email == email);
        assert(email_in(rows, email));
    }
    if email_in(rows, email) {
        let k = choose|i: int| 0 <= i < rows.len() && rows[i].email == email;
        assert(strings_view(emails)[k] == emails[k]@);
        assert(emails_of(rows)[k] == rows[k].email);
        assert((emails[k])@ == email);
        assert(email_listed(emails, email));
    }
}

/// Whether some entry of the list equals the given email: the duplicate scan
/// signup performs over the fetched email list.
pub fn email_taken(emails: &Vec<String>, email: &String) -> (r: bool)
    ensures
        r == email_listed(emails@, email@),
{
    let n = emails.len();
    let mut i: usize = 0;
    while i < n
        invariant
            n == emails@.len(),
            0 <= i <= n,
            forall|j: int| 0 <= j < i ==> (#[trigger] emails@[j])@ != email@,
        decreases n - i,
    {
        if emails[i] == *email {
            proof {
                assert((emails@[i as int])@ == email@);
                assert(email_listed(emails@, email@));
            }
            return true;
        }
        i = i + 1;
    }
    false
}

/// The stored row carrying the id, without its password; `None` when no row
/// does.
pub fn get_user_by_id(table: &UserTable, id: i32) -> (r: Option<UserResponse>)
    requires
        table.wf(),
    ensures
        opt_response_view(r) == spec_get_user_by_id(table@, id as int),
{
    let n = table.rows.len();
    let mut i: usize = 0;
    while i < n
        invariant
            n == table.rows@.len(),
            0 <= i <= n,
            table.wf(),
            forall|j: int| 0 <= j < i ==> #[trigger] table@.rows[j].id != id as int,
        decreases n - i,
    {
        if table.rows[i].id == id {
            proof {
                assert(table@.rows[i as int] == table.rows@[i as int]@);
                assert(table@.rows[i as int].id == id as int);
                assert(user_in(table@.rows, id as int));
                let k = user_index(table@.rows, id as int);
                assert(0 <= k < table@.rows.len() && table@.rows[k].id == id as int);
                if k < i as int {
                    assert(table@.rows[k].id != id as int);
                } else if k > i as int {
                    assert(table@.rows[i as int].id != table@.rows[k].id);
                }
                assert(k == i as int);
            }
            let row = &table.rows[i];
            return Option::Some(
                UserResponse { id: row.id, email: row.email.clone(), name: row.name.clone() },
            );
        }
        i = i + 1;
    }
    proof {
        assert(!user_in(table@.rows, id as int));
    }
    Option::None
}

/// Check the email against every stored one, then the password length, then
/// store the row; answer as signup answers.
pub fn sign_up(table: &mut UserTable, user: NewUser) -> (r: ApiResponse)
    requires
        old(table).wf(),
        old(table).next_id < i32::MAX,
    ensures
        final(table).wf(),
        final(table)@ == spec_sign_up(old(table)@, user@).0,
        r@ == spec_sign_up(old(table)@, user@).1,
{
    let ghost t0 = table@;
    let ghost u = user@;
    let emails = get_all_users(table);
    proof {
        lemma_email_listed_in_table(emails@, t0.rows, u.email);
    }
    if email_taken(&emails, &user.email) {
        return ApiResponse {
            status: 400,
            body: Body::Message("User with this email already exists!".to_owned()),
        };
    }
    proof {
        assert(!email_in(t0.rows, u.email));
    }
    if !password_long_enough(user.password.as_str()) {
        return ApiResponse {
            status: 400,
            body: Body::Message("Password cannot be less than 8 characters!".to_owned()),
        };
    }
    let id = table.next_id;
    let row = User { id: id, name: user.name, email: user.email, password: user.password };
    table.rows.push(row);
    table.next_id = table.next_id + 1;
    proof {
        assert(table@.rows =~= t0.rows.push(
            UserView { id: t0.next_id, name: u.name, email: u.email, password: u.password },
        ));
        assert(table@ =~= spec_sign_up(t0, u).0);
        assert forall|a: int, b: int|
            0 <= a < b < table@.rows.len() implies table@.rows[a].id != table@.rows[b].id
            && table@.rows[a].email != table@.rows[b].email by {
            if b < t0.rows.len() {
                assert(t0.rows[a].id != t0.rows[b].id);
                assert(t0.rows[a].email != t0.rows[b].email);
            } else {
                assert(t0.rows[a].id < t0.next_id);
                assert(t0.rows[a].email != u.email);
            }
        }
    }
    ApiResponse { status: 200, body: Body::Text("User added successfully!".to_owned()) }
}

/// Look the email up and compare the stored credentials with the submitted
/// ones; answer as login answers.
pub fn login(table: &UserTable, user: ExistingUser) -> (r: ApiResponse)
    requires
        table.wf(),
    ensures
        r@ == spec_login(table@, user@),
{
    let n = table.rows.len();
    let mut i: usize = 0;
    while i < n
        invariant
            n == table.rows@.len(),
            0 <= i <= n,
            table.wf(),
            forall|j: int| 0 <= j < i ==> #[trigger] table@.rows[j].email != user.email@,
        decreases n - i,
    {
        if table.rows[i].email == user.email {
            proof {
                assert(table@.rows[i as int] == table.rows@[i as int]@);
                assert(table@.rows[i as int].email == user.email@);
                assert(email_in(table@.rows, user.email@));
                let k = email_index(table@.rows, user.email@);
                assert(0 <= k < table@.rows.len() && table@.rows[k].email == user.email@);
                if k < i as int {
                    assert(table@.rows[k].email != user.email@);
                } else if k > i as int {
                    assert(table@.rows[i as int].email != table@.rows[k].email);
                }
                assert(k == i as int);
            }
            let stored_email = &table.rows[i].email;
            let stored_password = &table.rows[i].password;
            if *stored_email == user.email && *stored_password == user.password {
                return ApiResponse {
                    status: 200,
                    body: Body::Message("Logged in successfully.".to_owned()),
                };
            } else {
                return ApiResponse {
                    status: 401,
                    body: Body::Message("Incorrect passsword!".to_owned()),
                };
            }
        }
        i = i + 1;
    }
    proof {
        assert(!email_in(table@.rows, user.email@));
    }
    ApiResponse { status: 404, body: Body::Message("No user found!".to_owned()) }
}

/// A signup with an email some row already carries answers 400 and leaves
/// the table — in particular the user count — unchanged.
pub proof fn lemma_duplicate_signup(t: UserTableView, u: NewUserView)
    requires
        email_in(t.rows, u.email),
    ensures
        spec_sign_up(t, u).0 == t,
        spec_sign_up(t, u).0.rows.len() == t.rows.len(),
        spec_sign_up(t, u).1.status == 400,
{
}

/// With a fresh email, signup turns exactly on the password rule: a trimmed
/// password under eight bytes is rejected with 400 and stores nothing, one
/// of eight bytes or more is stored under the next id and answered 200.
pub proof fn lemma_password_rule(t: UserTableView, u: NewUserView)
    requires
        user_table_wf(t),
        t.next_id < i32::MAX as int,
        !email_in(t.rows, u.email),
    ensures
        !password_ok(u.password) ==> spec_sign_up(t, u).1.status == 400 && spec_sign_up(t, u).0
            == t,
        password_ok(u.password) ==> spec_sign_up(t, u).1.status == 200 && spec_sign_up(
            t,
            u,
        ).0.rows.len() == t.rows.len() + 1 && spec_sign_up(t, u).0.rows.last() == (UserView {
            id: t.next_id,
            name: u.name,
            email: u.email,
            password: u.password,
        }) && user_table_wf(spec_sign_up(t, u).0),
{
    if password_ok(u.password) {
        let t2 = spec_sign_up(t, u).0;
        let n = t.rows.len() as int;
        assert forall|a: int, b: int|
            0 <= a < b < t2.rows.len() implies t2.rows[a].id != t2.rows[b].id && t2.rows[a].email
            != t2.rows[b].email by {
            if b < n {
                assert(t.rows[a].id != t.rows[b].id);
                assert(t.rows[a].email != t.rows[b].email);
            } else {
                assert(t.rows[a].id < t.next_id);
                assert(t.rows[a].email != u.email);
            }
        }
        assert forall|a: int| 0 <= a < t2.rows.len() implies 0 < #[trigger] t2.rows[a].id
            < t2.next_id by {
            if a < n {
                assert(0 < t.rows[a].id < t.next_id);
            }
        }
    }
}

/// Logging in under a stored row's email answers 200 exactly when the
/// submitted password equals the stored one, and 401 otherwise; an email no
/// row carries answers 404.
pub proof fn lemma_login_outcomes(t: UserTableView, c: ExistingUserView)
    requires
        user_table_wf(t),
    ensures
        forall|j: int|
            0 <= j < t.rows.len() && #[trigger] t.rows[j].email == c.email ==> spec_login(
                t,
                c,
            ).status == (if t.rows[j].password == c.password {
                200int
            } else {
                401int
            }),
        !email_in(t.rows, c.email) ==> spec_login(t, c).status == 404,
{
    assert forall|j: int|
        0 <= j < t.rows.len() && #[trigger] t.rows[j].email == c.email implies spec_login(
        t,
        c,
    ).status == (if t.rows[j].password == c.password {
        200int
    } else {
        401int
    }) by {
        assert(email_in(t.rows, c.email));
        let k = email_index(t.rows, c.email);
        assert(0 <= k < t.rows.len() && t.rows[k].email == c.email);
        if j < k {
            assert(t.rows[j].email != t.rows[k].email);
        } else if j > k {
            assert(t.rows[k].email != t.rows[j].email);
        }
        assert(k == j);
    }
}

/// After a successful signup, fetching the new id returns the stored name
/// and email under that id — and nothing else: the answer has no password
/// field at all.
pub proof fn lemma_signup_then_get_user(t: UserTableView, u: NewUserView)
    requires
        user_table_wf(t),
        t.next_id < i32::MAX as int,
        !email_in(t.rows, u.email),
        password_ok(u.password),
    ensures
        spec_get_user_by_id(spec_sign_up(t, u).0, t.next_id) matches Option::Some(r)
            && r == (UserResponseView { id: t.next_id, email: u.email, name: u.name }),
{
    lemma_password_rule(t, u);
    let t2 = spec_sign_up(t, u).0;
    let n = t.rows.len() as int;
    assert(t2.rows[n].id == t.next_id);
    assert(user_in(t2.rows, t.next_id));
    let k = user_index(t2.rows, t.next_id);
    assert(0 <= k < t2.rows.len() && t2.rows[k].id == t.next_id);
    if k < n {
        assert(0 < t.rows[k].id < t.next_id);
    }
    assert(k == n);
}

/// Answer 200 with the password-free row, or 404 when the id is absent.
pub fn get_user(table: &UserTable, id: i32) -> (r: ApiResponse)
    requires
        table.wf(),
    ensures
        r@ == spec_get_user(table@, id as int),
{
    match get_user_by_id(table, id) {
        Option::Some(u) => ApiResponse { status: 200, body: Body::User(u) },
        Option::None => ApiResponse {
            status: 404,
            body: Body::Message("No user found for provided ID!".to_owned()),
        },
    }
}

} // verus!
