//! The authenticated actor as carried by a validated access token, and the
//! narrow checks route handlers make against it. No store lookup is needed:
//! the claims are authoritative for the token's lifetime.

use vstd::prelude::*;

verus! {

use crate::claims::{Claims, ActorContext};
use crate::flow::opt_ctx_view;

/// The identity, roles, permissions and context of the actor behind a
/// validated access token.
pub struct AuthUser {
    pub user_id: u128,
    pub tenant_id: u128,
    pub roles: Vec<String>,
    pub permissions: Vec<String>,
    pub context: Option<ActorContext>,
}

impl AuthUser {
    /// Lifts validated claims into the authenticated actor.
    pub fn from_claims(claims: Claims) -> (r: AuthUser)
        ensures
            r.user_id == claims.sub,
            r.tenant_id == claims.tenant,
            r.roles.deep_view() == claims@.roles,
            r.permissions.deep_view() == claims@.perms,
            opt_ctx_view(r.context) == claims@.ctx,
    {
        AuthUser {
            user_id: claims.sub,
            tenant_id: claims.tenant,
            roles: claims.roles,
            permissions: claims.perms,
            context: claims.ctx,
        }
    }

    /// Whether the token carries the permission.
    pub fn has_permission(&self, permission: &str) -> (r: bool)
        ensures
            r == self.permissions.deep_view().contains(permission@),
    {
        crate::rbac::contains_str(&self.permissions, permission)
    }

    /// Whether the token carries at least one of the permissions.
    pub fn has_any_permission(&self, permissions: &Vec<String>) -> (r: bool)
        ensures
            r == exists|k: int|
                0 <= k < permissions.deep_view().len() && self.permissions.deep_view().contains(
                    #[trigger] permissions.deep_view()[k],
                ),
    {
        let n = permissions.len();
        let mut i: usize = 0;
        while i < n
            invariant
                0 <= i <= n,
                n == permissions.len(),
                forall|k: int|
                    0 <= k < i ==> !self.permissions.deep_view().contains(
                        #[trigger] permissions.deep_view()[k],
                    ),
            decreases n - i,
        {
            if crate::rbac::contains_str(&self.permissions, permissions[i].as_str()) {
                proof {
                    assert(self.permissions.deep_view().contains(
                        permissions.deep_view()[i as int],
                    ));
                }
                return true;
            }
            i = i + 1;
        }
        false
    }

    /// Whether the token carries the role.
    pub fn has_role(&self, role: &str) -> (r: bool)
        ensures
            r == self.roles.deep_view().contains(role@),
    {
        crate::rbac::contains_str(&self.roles, role)
    }
}

/// Marker carried by route handlers that enforce a permission before their
/// body runs; the check itself is `AuthUser::has_permission`.
pub struct RequirePermission(pub String);

} // verus!
