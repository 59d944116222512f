//! Role requirements of protected routes.

use crate::api::auth::{role_rank, Role};
use crate::error::Error;
use vstd::prelude::*;

verus! {

/// The protection of a route: whether it is reserved to administrators or
/// open to every authenticated user.
#[derive(Debug, Clone, Copy)]
pub struct Protected {
    admin_only: bool,
}

impl View for Protected {
    /// Whether the route is reserved to administrators.
    type V = bool;

    closed spec fn view(&self) -> bool {
        self.admin_only
    }
}

/// The role a route with the given protection requires.
pub open spec fn required_role_of(admin_only: bool) -> Role {
    if admin_only {
        Role::Admin
    } else {
        Role::User
    }
}

impl Protected {
    /// A protection that requires administrators when `admin_only` holds.
    pub fn new(admin_only: bool) -> (r: Protected)
        ensures
            r@ == admin_only,
    {
        Protected { admin_only }
    }

    /// A protection reserved to administrators.
    pub fn admin_only() -> (r: Protected)
        ensures
            r@,
    {
        Protected::new(true)
    }

    /// A protection open to every authenticated user.
    pub fn authenticated() -> (r: Protected)
        ensures
            !r@,
    {
        Protected::new(false)
    }

    /// The role this protection requires.
    pub fn required_role(&self) -> (r: Role)
        ensures
            r == required_role_of(self@),
    {
        if self.admin_only {
            Role::Admin
        } else {
            Role::User
        }
    }

    /// Whether a user with `role` may use the route: their role must rank
    /// at least as high as the required one.
    pub fn admits(&self, role: &Role) -> (r: Result<(), Error>)
        ensures
            r is Ok <==> role_rank(*role) >= role_rank(required_role_of(self@)),
            r matches Err(e) ==> e == Error::Unauthorized,
    {
        let required = self.required_role();
        check_user_role(role, &required)
    }
}

impl Default for Protected {
    /// Routes are open to every authenticated user unless stated otherwise.
    fn default() -> (r: Protected)
        ensures
            !r@,
    {
        Protected::authenticated()
    }
}

/// A user with role `role` passes a check for `required` when their role
/// ranks at least as high; otherwise they are unauthorized.
pub fn check_user_role(role: &Role, required: &Role) -> (r: Result<(), Error>)
    ensures
        r is Ok <==> role_rank(*role) >= role_rank(*required),
        r matches Err(e) ==> e == Error::Unauthorized,
{
    if role.at_least(required) {
        Ok(())
    } else {
        Err(Error::Unauthorized)
    }
}

/// Administrators pass every protection; plain users pass exactly the
/// routes that are not reserved to administrators.
pub proof fn lemma_admins_pass_everything(admin_only: bool)
    ensures
        role_rank(Role::Admin) >= role_rank(required_role_of(admin_only)),
        role_rank(Role::User) >= role_rank(required_role_of(admin_only)) <==> !admin_only,
{
}

} // verus!
