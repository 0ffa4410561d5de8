//! Role-based access policy: pure capability checks over the caller's
//! resolved identity. Every failure is `Forbidden`; no operation here
//! performs I/O or depends on anything but its inputs.

use vstd::prelude::*;

use crate::models::{OrderError, OrderInfo};

verus! {

/// The role a request acts under, resolved from its credential before the
/// core is entered.
#[derive(Clone, Copy, PartialEq, Eq, Structural, Debug)]
pub enum Role {
    User,
    Courier,
    Admin,
    Analyst,
}

/// The identity attached to a request: resolved once, immutable for the
/// request's lifetime.
#[derive(Clone, Copy, PartialEq, Eq, Structural, Debug)]
pub struct TokenClaims {
    pub uuid: u128,
    pub role: Role,
}

/// The static capability table: each field is the set of roles allowed to
/// exercise one capability.
pub struct Policy {
    pub user_policy: Vec<Role>,
    pub user_only: Vec<Role>,
    pub courier_policy: Vec<Role>,
    pub admin_policy: Vec<Role>,
    pub analyst_policy: Vec<Role>,
}

impl Policy {
    pub fn new() -> (p: Policy)
        ensures
            p.user_policy@ == seq![Role::User, Role::Courier, Role::Admin, Role::Analyst],
            p.user_only@ == seq![Role::User],
            p.courier_policy@ == seq![Role::Courier, Role::Admin],
            p.admin_policy@ == seq![Role::Admin],
            p.analyst_policy@ == seq![Role::Analyst, Role::Admin],
    {
        let mut user_policy: Vec<Role> = Vec::new();
        user_policy.push(Role::User);
        user_policy.push(Role::Courier);
        user_policy.push(Role::Admin);
        user_policy.push(Role::Analyst);
        let mut user_only: Vec<Role> = Vec::new();
        user_only.push(Role::User);
        let mut courier_policy: Vec<Role> = Vec::new();
        courier_policy.push(Role::Courier);
        courier_policy.push(Role::Admin);
        let mut admin_policy: Vec<Role> = Vec::new();
        admin_policy.push(Role::Admin);
        let mut analyst_policy: Vec<Role> = Vec::new();
        analyst_policy.push(Role::Analyst);
        analyst_policy.push(Role::Admin);
        proof {
            assert(user_policy@ =~= seq![Role::User, Role::Courier, Role::Admin, Role::Analyst]);
            assert(user_only@ =~= seq![Role::User]);
            assert(courier_policy@ =~= seq![Role::Courier, Role::Admin]);
            assert(admin_policy@ =~= seq![Role::Admin]);
            assert(analyst_policy@ =~= seq![Role::Analyst, Role::Admin]);
        }
        Policy { user_policy, user_only, courier_policy, admin_policy, analyst_policy }
    }
}

/// Role membership test: the caller holds the capability iff its role is in
/// the capability's role set.
pub fn has_access(permissions: &Vec<Role>, claims: &TokenClaims) -> (r: bool)
    ensures
        r == permissions@.contains(claims.role),
{
    let mut i: usize = 0;
    while i < permissions.len()
        invariant
            0 <= i <= permissions@.len(),
            forall|j: int| 0 <= j < i ==> permissions@[j] != claims.role,
        decreases permissions@.len() - i,
    {
        if permissions[i] == claims.role {
            return true;
        }
        i = i + 1;
    }
    false
}

/// Whether the caller may see one given order.
pub open spec fn order_access_allowed(
    permissions: Seq<Role>,
    claims: TokenClaims,
    order: OrderInfo,
) -> bool {
    permissions.contains(claims.role) || claims.uuid == order.user_uuid || claims.uuid
        == order.courier_uuid
}

/// Succeeds if the caller holds the capability, or is the order's user or
/// its courier; everything else is `Forbidden`.
pub fn has_access_to_order(
    permissions: &Vec<Role>,
    claims: &TokenClaims,
    order: &OrderInfo,
) -> (r: Result<(), OrderError>)
    ensures
        r is Ok <==> order_access_allowed(permissions@, *claims, *order),
        r is Err ==> r == Err::<(), OrderError>(OrderError::Forbidden),
{
    if has_access(permissions, claims) || claims.uuid == order.user_uuid || claims.uuid
        == order.courier_uuid {
        Ok(())
    } else {
        Err(OrderError::Forbidden)
    }
}

/// The self-matching check: the caller must be exactly the named identity.
pub fn has_access_by_uuid(claims: &TokenClaims, user_uuid: u128) -> (r: Result<(), OrderError>)
    ensures
        r is Ok <==> claims.uuid == user_uuid,
        r is Err ==> r == Err::<(), OrderError>(OrderError::Forbidden),
{
    if user_uuid == claims.uuid {
        Ok(())
    } else {
        Err(OrderError::Forbidden)
    }
}

/// Whether the caller may browse orders narrowed by the given filters:
/// analysts and admins see everything; a courier may name itself in the
/// courier filter; anyone may name itself in the user filter.
pub open spec fn filter_access_allowed(
    policy: Policy,
    claims: TokenClaims,
    courier_uuid: Option<u128>,
    user_uuid: Option<u128>,
) -> bool {
    policy.analyst_policy@.contains(claims.role) || (courier_uuid == Some(claims.uuid)
        && policy.courier_policy@.contains(claims.role)) || user_uuid == Some(claims.uuid)
}

/// Gate of the order-browsing filters; see `filter_access_allowed`.
pub fn has_access_to_filters(
    policy: &Policy,
    claims: &TokenClaims,
    courier_uuid: Option<u128>,
    user_uuid: Option<u128>,
) -> (r: Result<(), OrderError>)
    ensures
        r is Ok <==> filter_access_allowed(*policy, *claims, courier_uuid, user_uuid),
        r is Err ==> r == Err::<(), OrderError>(OrderError::Forbidden),
{
    let courier_is_self = match courier_uuid {
        Some(c) => c == claims.uuid,
        None => false,
    };
    let user_is_self = match user_uuid {
        Some(u) => u == claims.uuid,
        None => false,
    };
    if has_access(&policy.analyst_policy, claims) || (courier_is_self && has_access(
        &policy.courier_policy,
        claims,
    )) || user_is_self {
        Ok(())
    } else {
        Err(OrderError::Forbidden)
    }
}

/// Resolves the role name the authentication service hands back into the
/// enumerated role; an unknown name resolves to nothing and the request is
/// rejected at the edge.
pub fn role_from_name(name: &String) -> (r: Option<Role>)
    ensures
        r == (if name@ == "USER"@ {
            Some(Role::User)
        } else if name@ == "COURIER"@ {
            Some(Role::Courier)
        } else if name@ == "ADMIN"@ {
            Some(Role::Admin)
        } else if name@ == "ANALYST"@ {
            Some(Role::Analyst)
        } else {
            None::<Role>
        }),
{
    if name.eq(&"USER".to_owned()) {
        Some(Role::User)
    } else if name.eq(&"COURIER".to_owned()) {
        Some(Role::Courier)
    } else if name.eq(&"ADMIN".to_owned()) {
        Some(Role::Admin)
    } else if name.eq(&"ANALYST".to_owned()) {
        Some(Role::Analyst)
    } else {
        None
    }
}

/// The transport status a request gets when its credential cannot be
/// resolved: an unauthenticated credential is the caller's fault, anything
/// else is the resolver's.
pub fn claims_rejection_status(unauthenticated: bool) -> (r: u16)
    ensures
        unauthenticated ==> r == 401,
        !unauthenticated ==> r == 500,
{
    if unauthenticated {
        401
    } else {
        500
    }
}

} // verus!
