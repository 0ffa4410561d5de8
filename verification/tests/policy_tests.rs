use delivery_order::models::{OrderError, OrderInfo, OrderStatus};
use delivery_order::policy::{
    claims_rejection_status, has_access, has_access_by_uuid, has_access_to_filters,
    has_access_to_order, role_from_name, Policy, Role, TokenClaims,
};

fn order_between(user: u128, courier: u128) -> OrderInfo {
    OrderInfo {
        uuid: 900,
        user_uuid: user,
        courier_uuid: courier,
        rating: None,
        status: OrderStatus::InProgress,
        updated_at: 0,
        address: "10 Main St".to_owned(),
    }
}

#[test]
fn policy_table_contents() {
    let p = Policy::new();
    assert_eq!(p.user_policy.len(), 4);
    assert_eq!(p.user_only, vec![Role::User]);
    assert_eq!(p.courier_policy, vec![Role::Courier, Role::Admin]);
    assert_eq!(p.admin_policy, vec![Role::Admin]);
    assert_eq!(p.analyst_policy, vec![Role::Analyst, Role::Admin]);
}

#[test]
fn admin_capability_membership() {
    let p = Policy::new();
    let admin = TokenClaims { uuid: 1, role: Role::Admin };
    let user = TokenClaims { uuid: 2, role: Role::User };
    assert!(has_access(&p.admin_policy, &admin));
    assert!(!has_access(&p.admin_policy, &user));
    assert!(has_access(&p.user_policy, &user));
    assert!(has_access(&p.analyst_policy, &admin));
}

#[test]
fn order_access_for_owner_courier_and_analyst() {
    let p = Policy::new();
    let order = order_between(10, 20);
    let owner = TokenClaims { uuid: 10, role: Role::User };
    let courier = TokenClaims { uuid: 20, role: Role::Courier };
    let analyst = TokenClaims { uuid: 30, role: Role::Analyst };
    let stranger = TokenClaims { uuid: 40, role: Role::User };
    assert!(has_access_to_order(&p.analyst_policy, &owner, &order).is_ok());
    assert!(has_access_to_order(&p.analyst_policy, &courier, &order).is_ok());
    assert!(has_access_to_order(&p.analyst_policy, &analyst, &order).is_ok());
    assert_eq!(
        has_access_to_order(&p.analyst_policy, &stranger, &order),
        Err(OrderError::Forbidden)
    );
}

#[test]
fn identity_check_is_exact() {
    let claims = TokenClaims { uuid: 7, role: Role::User };
    assert!(has_access_by_uuid(&claims, 7).is_ok());
    assert_eq!(has_access_by_uuid(&claims, 8), Err(OrderError::Forbidden));
}

#[test]
fn filter_access_own_user_id_allowed_for_plain_user() {
    let p = Policy::new();
    let user = TokenClaims { uuid: 5, role: Role::User };
    assert!(has_access_to_filters(&p, &user, None, Some(5)).is_ok());
}

#[test]
fn filter_access_foreign_user_id_forbidden_for_plain_user() {
    let p = Policy::new();
    let user = TokenClaims { uuid: 5, role: Role::User };
    assert_eq!(
        has_access_to_filters(&p, &user, None, Some(6)),
        Err(OrderError::Forbidden)
    );
    assert_eq!(
        has_access_to_filters(&p, &user, None, None),
        Err(OrderError::Forbidden)
    );
}

#[test]
fn filter_access_courier_and_analyst_rules() {
    let p = Policy::new();
    let courier = TokenClaims { uuid: 9, role: Role::Courier };
    let analyst = TokenClaims { uuid: 1, role: Role::Analyst };
    let user = TokenClaims { uuid: 9, role: Role::User };
    assert!(has_access_to_filters(&p, &courier, Some(9), None).is_ok());
    assert_eq!(
        has_access_to_filters(&p, &courier, Some(8), None),
        Err(OrderError::Forbidden)
    );
    // A plain user naming itself as the courier filter holds no courier capability.
    assert_eq!(
        has_access_to_filters(&p, &user, Some(9), None),
        Err(OrderError::Forbidden)
    );
    // Analysts browse unrestricted.
    assert!(has_access_to_filters(&p, &analyst, None, None).is_ok());
}

#[test]
fn role_names_resolve() {
    assert_eq!(role_from_name(&"USER".to_owned()), Some(Role::User));
    assert_eq!(role_from_name(&"COURIER".to_owned()), Some(Role::Courier));
    assert_eq!(role_from_name(&"ADMIN".to_owned()), Some(Role::Admin));
    assert_eq!(role_from_name(&"ANALYST".to_owned()), Some(Role::Analyst));
    assert_eq!(role_from_name(&"ROOT".to_owned()), None);
    assert_eq!(role_from_name(&"user".to_owned()), None);
}

#[test]
fn rejection_status_codes() {
    assert_eq!(claims_rejection_status(true), 401);
    assert_eq!(claims_rejection_status(false), 500);
}
