//! Sample data: a small set of declarations that serve as a natural
//! subject for the declaration scanner.  The one computation here is
//! the request path a user id maps to; everything else is plain data
//! with exact contracts.

use vstd::prelude::*;

verus! {

broadcast use vstd::string::group_string_axioms;

/// The largest number of users the sample configuration admits.
pub const MAX_USERS: u32 = 1000;

/// The default port of the sample configuration.
pub const DEFAULT_PORT: u16 = 8080;

/// The version tag of the sample interface.
pub fn api_version() -> (v: &'static str)
    ensures
        v@ == "2.0.1"@,
{
    "2.0.1"
}

/// A sample user record.
pub struct User {
    pub id: u32,
    pub name: String,
    pub email: String,
}

/// A sample server configuration.
pub struct Config {
    pub port: u16,
    pub host: String,
    pub database: String,
}

/// A sample lifecycle state.
#[derive(PartialEq, Eq, Structural, Clone, Copy, Debug)]
pub enum Status {
    Active,
    Inactive,
    Pending,
}

/// A sample colour.
#[derive(PartialEq, Eq, Structural, Clone, Copy, Debug)]
pub enum Color {
    Red,
    Green,
    Blue,
}

impl User {
    /// The user's name, as a borrowed string.
    pub fn get_name(&self) -> (r: &str)
        ensures
            r@ == self.name@,
    {
        self.name.as_str()
    }

    /// Replaces the user's email address, leaving the other fields
    /// unchanged.
    pub fn set_email(&mut self, email: String)
        ensures
            final(self).id == old(self).id,
            final(self).name == old(self).name,
            final(self).email == email,
    {
        self.email = email;
    }
}

/// The decimal digits of `n`, most significant first, as ASCII bytes.
pub open spec fn decimal_digits(n: nat) -> Seq<u8>
    decreases n,
{
    if n < 10 {
        seq![(48 + n) as u8]
    } else {
        decimal_digits(n / 10).push((48 + n % 10) as u8)
    }
}

/// The bytes of `/api/users/`, the path prefix of a user request.
pub open spec fn user_path_prefix() -> Seq<u8> {
    seq![47u8, 97u8, 112u8, 105u8, 47u8, 117u8, 115u8, 101u8, 114u8, 115u8, 47u8]
}

fn push_decimal_digits(n: u32, out: &mut Vec<u8>)
    ensures
        final(out)@ == old(out)@ + decimal_digits(n as nat),
    decreases n,
{
    let ghost orig = out@;
    if n >= 10 {
        push_decimal_digits(n / 10, out);
    }
    out.push(48 + (n % 10) as u8);
    proof {
        assert(out@ =~= orig + decimal_digits(n as nat));
    }
}

/// The request path for a user: `/api/users/` followed by the id in
/// decimal.
pub fn api_user_path(user_id: u32) -> (path: Vec<u8>)
    ensures
        path@ == user_path_prefix() + decimal_digits(user_id as nat),
{
    let mut path: Vec<u8> = Vec::new();
    path.push(47);
    path.push(97);
    path.push(112);
    path.push(105);
    path.push(47);
    path.push(117);
    path.push(115);
    path.push(101);
    path.push(114);
    path.push(115);
    path.push(47);
    proof {
        assert(path@ =~= user_path_prefix());
    }
    push_decimal_digits(user_id, &mut path);
    path
}

/// The error type of `std::io`, declared so that it can stand in a
/// result signature; no value of it is ever made or read here.
#[verifier::external_type_specification]
#[verifier::external_body]
pub struct ExIoError(std::io::Error);

/// Looks a user up by id.  The sample store knows every id: the
/// result is always the record named `John`, under the id asked for.
pub fn process_user_data(user_id: u32) -> (r: Result<User, std::io::Error>)
    ensures
        r is Ok,
        r->Ok_0.id == user_id,
        r->Ok_0.name@ == "John"@,
        r->Ok_0.email@ == "john@example.com"@,
{
    Ok(
        User {
            id: user_id,
            name: "John".to_string(),
            email: "john@example.com".to_string(),
        },
    )
}

} // verus!
