use vstd::prelude::*;

verus! {

/// The new user id returned by a sign-up.
#[derive(Debug)]
pub struct CreateUserResponse {
    pub user_id: String,
}

/// A sign-up.
#[derive(Debug)]
pub struct CreateUserRequest {
    pub email: String,
    pub username: String,
    pub password: String,
}

/// A sign-in.
#[derive(Debug)]
pub struct UserSigninRequest {
    pub email: String,
    pub password: String,
}

/// A lookup of a user by email.
#[derive(Debug)]
pub struct GetUserRequest {
    pub email: String,
}

/// A looked-up user.
#[derive(Debug)]
pub struct GetUserResponse {
    pub user: User,
}

/// A stored user.
#[derive(Debug)]
pub struct User {
    pub id: String,
    pub username: String,
    pub password: String,
    pub email: String,
}

/// The 128-bit value of the UUID that `text` spells, as uuid's
/// `Uuid::parse_str` reads it (simple, hyphenated, braced or URN form), or
/// `None` when it spells none.
pub uninterp spec fn uuid_value(text: Seq<char>) -> Option<u128>;

/// The message of the error that uuid's `Uuid::parse_str` gives for `text`
/// (the error's `Display`), meaningful when `text` spells no UUID.
pub uninterp spec fn uuid_error_message(text: Seq<char>) -> Seq<char>;

/// uuid's `Uuid::parse_str`, read as the UUID's 128-bit value
/// (`Uuid::as_u128`) or, on failure, as the error's message (its `Display`):
/// it succeeds exactly when `text` spells a UUID, and then gives that UUID;
/// the value and the message depend on `text` alone.
#[verifier::external_body]
fn parse_uuid(text: &str) -> (r: Result<u128, String>)
    ensures
        r is Ok <==> uuid_value(text@) is Some,
        r matches Ok(v) ==> uuid_value(text@) == Some(v),
        r matches Err(m) ==> m@ == uuid_error_message(text@),
{
    match uuid::Uuid::parse_str(text) {
        Ok(u) => Ok(u.as_u128()),
        Err(e) => Err(e.to_string()),
    }
}

/// A user id that does not spell a UUID; `message` says why.
#[derive(Debug)]
pub struct InvalidUserId {
    pub message: String,
}

/// The database key of user id `id`: the value of the UUID it spells.
pub fn user_id_key(id: &str) -> (r: Result<u128, InvalidUserId>)
    ensures
        match uuid_value(id@) {
            Some(v) => r == Ok::<u128, InvalidUserId>(v),
            None => r matches Err(e) && e.message@ == uuid_error_message(id@),
        },
{
    match parse_uuid(id) {
        Ok(v) => Ok(v),
        Err(message) => Err(InvalidUserId { message }),
    }
}

} // verus!
