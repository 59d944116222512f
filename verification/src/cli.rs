//! The administration commands' textual conventions: role names, password
//! confirmation, the protected root account, and the listing tables.

use crate::api::auth::Role;
use crate::text::{ascii_lower, to_ascii_lowercase};
use vstd::prelude::*;

verus! {

/// The name of a role as the commands print and accept it.
pub open spec fn role_name_spec(role: Role) -> Seq<char> {
    match role {
        Role::User => "user"@,
        Role::Admin => "admin"@,
    }
}

/// The message rejecting a role name, given its ASCII-lowercased form.
pub open spec fn invalid_role_message(lowered: Seq<char>) -> Seq<char> {
    "invalid role '"@ + lowered + "': must be 'user' or 'admin'"@
}

/// The role a name denotes, ignoring ASCII case, if any.
pub open spec fn parse_role_spec(s: Seq<char>) -> Option<Role> {
    if ascii_lower(s) == "user"@ {
        Some(Role::User)
    } else if ascii_lower(s) == "admin"@ {
        Some(Role::Admin)
    } else {
        None
    }
}

/// Parses a role name, ignoring ASCII case: `user` or `admin`.
pub fn parse_role(s: &str) -> (r: Result<Role, String>)
    ensures
        match parse_role_spec(s@) {
            Some(role) => r == Ok::<Role, String>(role),
            None => r matches Err(m) && m@ == invalid_role_message(ascii_lower(s@)),
        },
{
    let lowered = to_ascii_lowercase(s);
    proof {
        reveal_strlit("user");
        reveal_strlit("admin");
    }
    if crate::text::str_eq(lowered.as_str(), "user") {
        Ok(Role::User)
    } else if crate::text::str_eq(lowered.as_str(), "admin") {
        Ok(Role::Admin)
    } else {
        let mut m = String::from_str("invalid role '");
        m.append(lowered.as_str());
        m.append("': must be 'user' or 'admin'");
        Err(m)
    }
}

/// The name of a role.
pub fn role_name(role: &Role) -> (r: &'static str)
    ensures
        r@ == role_name_spec(*role),
{
    match role {
        Role::User => "user",
        Role::Admin => "admin",
    }
}

/// Printing a role and parsing the name back gives the same role.
pub proof fn lemma_role_name_round_trip(role: Role)
    ensures
        parse_role_spec(role_name_spec(role)) == Some(role),
{
    reveal_strlit("user");
    reveal_strlit("admin");
    assert(ascii_lower(role_name_spec(role)) =~= role_name_spec(role));
    assert("user"@ != "admin"@) by {
        assert("user"@.len() != "admin"@.len());
    }
}

/// `s` padded with spaces on the right to `width` characters (as the
/// `{:<width}` format does); longer text is left as it is.
pub open spec fn pad_right(s: Seq<char>, width: nat) -> Seq<char> {
    if s.len() >= width {
        s
    } else {
        s + Seq::new((width - s.len()) as nat, |i: int| ' ')
    }
}

/// `s` padded with spaces on the right to `width` characters.
pub fn pad(s: &str, width: usize) -> (r: String)
    ensures
        r@ == pad_right(s@, width as nat),
{
    let mut out = String::from_str(s);
    let n = s.unicode_len();
    let mut i: usize = n;
    while i < width
        invariant
            n == s@.len(),
            n <= i <= width || (i == n && n >= width),
            out@ == s@ + Seq::new((i - n) as nat, |k: int| ' '),
        decreases width - i,
    {
        crate::text::push_char(&mut out, ' ');
        assert(out@ =~= s@ + Seq::new((i + 1 - n) as nat, |k: int| ' '));
        i += 1;
    }
    assert(out@ =~= pad_right(s@, width as nat));
    out
}

/// Checks a new password typed twice: it must not be empty, and both
/// entries must agree.
pub fn check_new_password(password: &str, confirmation: &str) -> (r: Result<(), String>)
    ensures
        password@.len() == 0 ==> (r matches Err(m) && m@ == "password must not be empty"@),
        password@.len() > 0 && password@ != confirmation@ ==> (r matches Err(m) && m@
            == "passwords do not match"@),
        password@.len() > 0 && password@ == confirmation@ ==> r is Ok,
{
    if password.unicode_len() == 0 {
        Err(String::from_str("password must not be empty"))
    } else if !crate::text::str_eq(password, confirmation) {
        Err(String::from_str("passwords do not match"))
    } else {
        Ok(())
    }
}

/// The message refusing to delete the root administrator.
pub open spec fn root_removal_message(email: Seq<char>) -> Seq<char> {
    "'"@ + email
        + "' is the root administrator, which is configured via the NERVEMQ_ROOT_EMAIL / NERVEMQ_ROOT_PASSWORD environment variables and recreated at startup; it cannot be deleted"@
}

/// The root administrator is recreated from the configuration at every
/// start, so it cannot be deleted; any other user can.
pub fn check_removable_user(email: &str, root_email: &str) -> (r: Result<(), String>)
    ensures
        email@ == root_email@ ==> (r matches Err(m) && m@ == root_removal_message(email@)),
        email@ != root_email@ ==> r is Ok,
{
    if crate::text::str_eq(email, root_email) {
        let mut m = String::from_str("'");
        m.append(email);
        m.append(
            "' is the root administrator, which is configured via the NERVEMQ_ROOT_EMAIL / NERVEMQ_ROOT_PASSWORD environment variables and recreated at startup; it cannot be deleted",
        );
        Err(m)
    } else {
        Ok(())
    }
}

/// The user an API key command acts for: the one named, else the root
/// administrator.
pub fn api_key_owner(user: Option<String>, root_email: &str) -> (r: String)
    ensures
        r@ == (match user {
            Some(u) => u@,
            None => root_email@,
        }),
{
    match user {
        Some(u) => u,
        None => root_email.to_owned(),
    }
}

/// A row of the user listing: the email padded to 40 characters, a space,
/// and the role name.
pub fn user_row(email: &str, role: &Role) -> (r: String)
    ensures
        r@ == pad_right(email@, 40) + seq![' '] + role_name_spec(*role),
{
    let mut row = pad(email, 40);
    crate::text::push_char(&mut row, ' ');
    row.append(role_name(role));
    row
}

/// A row of the API key listing: the key name and the namespace, each
/// padded to 24 characters, then the owner's email, separated by spaces.
pub fn api_key_row(name: &str, namespace: &str, email: &str) -> (r: String)
    ensures
        r@ == pad_right(name@, 24) + seq![' '] + pad_right(namespace@, 24) + seq![' '] + email@,
{
    let mut row = pad(name, 24);
    crate::text::push_char(&mut row, ' ');
    row.append(pad(namespace, 24).as_str());
    crate::text::push_char(&mut row, ' ');
    row.append(email);
    row
}

/// Whether `serde_email` accepts a text as an email address: a function of
/// the text alone (its structural validation, `email_address`'s
/// `EmailAddress::is_valid`).
pub uninterp spec fn email_accepted(s: Seq<char>) -> bool;

/// The reason `serde_email` gives for refusing a text (the `Display` of
/// its `EmailError::Invalid`).
pub open spec fn email_refusal(s: Seq<char>) -> Seq<char> {
    "invalid email address, was given '"@ + s + "'"@
}

/// `serde_email::Email::from_str`: accepts the text (see
/// [`email_accepted`]), or refuses it with the reason the crate displays
/// (see [`email_refusal`]).
#[verifier::external_body]
fn email_check(s: &str) -> (r: Result<(), String>)
    ensures
        r is Ok <==> email_accepted(s@),
        r matches Err(m) ==> m@ == email_refusal(s@),
{
    match serde_email::Email::from_str(s) {
        Ok(_) => Ok(()),
        Err(e) => Err(e.to_string()),
    }
}

/// The message rejecting an email address: the address and the reason.
pub open spec fn invalid_email_message(email: Seq<char>) -> Seq<char> {
    "invalid email address '"@ + email + "': "@ + email_refusal(email)
}

/// An email address given on the command line: the text itself when
/// `serde_email` accepts it (see [`email_accepted`]), else the message
/// rejecting it.
pub fn parse_email(email: &str) -> (r: Result<String, String>)
    ensures
        r is Ok <==> email_accepted(email@),
        r matches Ok(e) ==> e@ == email@,
        r matches Err(m) ==> m@ == invalid_email_message(email@),
{
    match email_check(email) {
        Ok(()) => Ok(email.to_owned()),
        Err(reason) => {
            let mut m = String::from_str("invalid email address '");
            m.append(email);
            m.append("': ");
            m.append(reason.as_str());
            Err(m)
        },
    }
}

} // verus!
