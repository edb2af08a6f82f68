use opsk::auth::{AppError, AuthUser};
use opsk::catalog::{available_types, CreateProviderRequest, ProviderStore, UpdateProviderRequest};
use opsk::provider::Assignments;

fn super_admin() -> AuthUser {
    AuthUser { user_id: 1, role: "super_admin".to_string(), tenant_id: None, username: "admin".to_string() }
}

fn admin_with_tenant(tenant_id: u128) -> AuthUser {
    AuthUser { user_id: 2, role: "tenant_admin".to_string(), tenant_id: Some(tenant_id), username: "ta".to_string() }
}

fn member(tenant_id: u128) -> AuthUser {
    AuthUser { user_id: 3, role: "member".to_string(), tenant_id: Some(tenant_id), username: "m".to_string() }
}

fn make_req(name: &str) -> CreateProviderRequest {
    CreateProviderRequest { name: name.to_string(), provider_type: "gateway".to_string(), config: "{}".to_string() }
}

const TENANT: u128 = 500;

#[test]
fn test_list_empty() {
    let store = ProviderStore::new();
    assert!(store.list(&super_admin()).is_empty());
}

#[test]
fn test_create_super_admin_only() {
    let mut store = ProviderStore::new();
    let p = store.create(&super_admin(), 10, &make_req("First")).unwrap();
    assert_eq!(p.name, "First");
}

#[test]
fn test_create_empty_name_rejected() {
    let mut store = ProviderStore::new();
    let result = store.create(&super_admin(), 10, &make_req(""));
    assert!(result.is_err());
    match result {
        Err(AppError::BadRequest(msg)) => assert!(msg.contains("Name"), "Expected 'Name' in message, got: {}", msg),
        Err(other) => panic!("Expected BadRequest, got {:?}", other),
        Ok(_) => panic!("Expected an error"),
    }
}

#[test]
fn test_create_non_super_admin_forbidden() {
    let mut store = ProviderStore::new();
    let result = store.create(&admin_with_tenant(TENANT), 10, &make_req("Nope"));
    assert!(matches!(result, Err(AppError::Forbidden(_))));
    let result = store.create(&member(TENANT), 11, &make_req("Nope"));
    assert!(matches!(result, Err(AppError::Forbidden(_))));
}

#[test]
fn test_assign_and_list_by_tenant() {
    let admin = super_admin();
    let mut store = ProviderStore::new();
    let p1 = store.create(&admin, 10, &make_req("Model A")).unwrap();
    let p2 = store.create(&admin, 11, &make_req("Model B")).unwrap();
    store.assign_to_tenant(&admin, TENANT, &vec![p1.id, p2.id]).unwrap();
    let assigned = store.list_by_tenant(&admin, TENANT).unwrap();
    assert_eq!(assigned.len(), 2);
    let default_count = assigned.iter().filter(|a| a.is_default).count();
    assert_eq!(default_count, 1);
}

#[test]
fn test_set_tenant_default() {
    let admin = super_admin();
    let mut store = ProviderStore::new();
    let p1 = store.create(&admin, 10, &make_req("Model A")).unwrap();
    let p2 = store.create(&admin, 11, &make_req("Model B")).unwrap();
    store.assign_to_tenant(&admin, TENANT, &vec![p1.id, p2.id]).unwrap();
    store.set_tenant_default(&admin, TENANT, p2.id).unwrap();
    let assigned = store.list_by_tenant(&admin, TENANT).unwrap();
    for a in &assigned {
        if a.provider.id == p2.id {
            assert!(a.is_default);
        } else {
            assert!(!a.is_default);
        }
    }
}

#[test]
fn test_set_default_unassigned_provider_fails() {
    let admin = super_admin();
    let mut store = ProviderStore::new();
    let p = store.create(&admin, 10, &make_req("Model")).unwrap();
    let result = store.set_tenant_default(&admin, TENANT, p.id);
    assert!(matches!(result, Err(AppError::BadRequest(_))));
}

#[test]
fn test_reassign_removes_old() {
    let admin = super_admin();
    let mut store = ProviderStore::new();
    let p1 = store.create(&admin, 10, &make_req("Model A")).unwrap();
    let p2 = store.create(&admin, 11, &make_req("Model B")).unwrap();
    store.assign_to_tenant(&admin, TENANT, &vec![p1.id, p2.id]).unwrap();
    assert_eq!(store.list_by_tenant(&admin, TENANT).unwrap().len(), 2);
    store.assign_to_tenant(&admin, TENANT, &vec![p2.id]).unwrap();
    let assigned = store.list_by_tenant(&admin, TENANT).unwrap();
    assert_eq!(assigned.len(), 1);
    assert_eq!(assigned[0].provider.id, p2.id);
}

#[test]
fn test_tenant_user_sees_only_assigned() {
    let admin = super_admin();
    let mut store = ProviderStore::new();
    let p1 = store.create(&admin, 10, &make_req("Model A")).unwrap();
    let _p2 = store.create(&admin, 11, &make_req("Model B")).unwrap();
    store.assign_to_tenant(&admin, TENANT, &vec![p1.id]).unwrap();
    let visible = store.list(&admin_with_tenant(TENANT));
    assert_eq!(visible.len(), 1);
    assert_eq!(visible[0].provider.id, p1.id);
}

#[test]
fn test_delete_provider() {
    let admin = super_admin();
    let mut store = ProviderStore::new();
    let p = store.create(&admin, 10, &make_req("ToDelete")).unwrap();
    store.delete(&admin, p.id).unwrap();
    assert!(store.list(&admin).is_empty());
}

#[test]
fn test_update_success() {
    let admin = super_admin();
    let mut store = ProviderStore::new();
    let p = store.create(&admin, 10, &make_req("Original")).unwrap();
    assert_eq!(p.name, "Original");
    let updated = store
        .update(&admin, p.id, UpdateProviderRequest { name: Some("Renamed".to_string()), provider_type: None, config: None })
        .unwrap();
    assert_eq!(updated.name, "Renamed");
    assert_eq!(updated.id, p.id);
}

#[test]
fn test_update_not_found() {
    let admin = super_admin();
    let mut store = ProviderStore::new();
    let result = store.update(
        &admin,
        99,
        UpdateProviderRequest { name: Some("Ghost".to_string()), provider_type: None, config: None },
    );
    assert!(matches!(result, Err(AppError::NotFound(_))));
}

#[test]
fn test_available_types_local() {
    let types = available_types(true);
    assert_eq!(types.len(), 2);
    let values: Vec<&str> = types.iter().map(|t| t.value.as_str()).collect();
    assert!(values.contains(&"bedrock"));
    assert!(values.contains(&"gateway"));
}

#[test]
fn test_available_types_non_local() {
    let types = available_types(false);
    assert_eq!(types.len(), 1);
    assert_eq!(types[0].value, "gateway");
}

#[test]
fn create_trims_name_and_refuses_duplicate_id() {
    let admin = super_admin();
    let mut store = ProviderStore::new();
    let p = store.create(&admin, 10, &make_req("  Spaced  ")).unwrap();
    assert_eq!(p.name, "Spaced");
    assert!(matches!(store.create(&admin, 10, &make_req("Again")), Err(AppError::Conflict(_))));
}

#[test]
fn tenant_listing_puts_default_first() {
    let admin = super_admin();
    let mut store = ProviderStore::new();
    store.create(&admin, 10, &make_req("A")).unwrap();
    store.create(&admin, 11, &make_req("B")).unwrap();
    store.assign_to_tenant(&admin, TENANT, &vec![10, 11]).unwrap();
    store.set_tenant_default(&admin, TENANT, 11).unwrap();
    let seen = store.list(&member(TENANT));
    assert_eq!(seen.len(), 2);
    assert_eq!(seen[0].provider.id, 11);
    assert!(seen[0].is_default);
    assert!(!seen[1].is_default);
}

#[test]
fn user_without_tenant_sees_nothing() {
    let admin = super_admin();
    let mut store = ProviderStore::new();
    store.create(&admin, 10, &make_req("A")).unwrap();
    let lone = AuthUser { user_id: 9, role: "member".to_string(), tenant_id: None, username: "x".to_string() };
    assert!(store.list(&lone).is_empty());
}

#[test]
fn counts_and_tenants_of_a_card() {
    let admin = super_admin();
    let mut store = ProviderStore::new();
    store.create(&admin, 10, &make_req("A")).unwrap();
    store.assign_provider_to_tenants(&admin, 10, &vec![1, 2, 3]).unwrap();
    let counts = store.count_tenant_assignments();
    assert_eq!(counts, vec![(10u128, 3i64)]);
    let tenants = store.list_tenants_for_provider(&admin, 10).unwrap();
    let ids: Vec<u128> = tenants.iter().map(|t| t.tenant_id).collect();
    assert_eq!(ids.len(), 3);
    assert!(ids.contains(&1) && ids.contains(&2) && ids.contains(&3));
    assert!(matches!(store.list_tenants_for_provider(&member(1), 10), Err(AppError::Forbidden(_))));
}

#[test]
fn delete_drops_assignments() {
    let admin = super_admin();
    let mut store = ProviderStore::new();
    store.create(&admin, 10, &make_req("A")).unwrap();
    store.assign_to_tenant(&admin, TENANT, &vec![10]).unwrap();
    store.delete(&admin, 10).unwrap();
    assert!(store.list_by_tenant(&admin, TENANT).unwrap().is_empty());
    assert!(matches!(store.delete(&admin, 10), Err(AppError::NotFound(_))));
}

#[test]
fn assignments_first_assigned_is_default() {
    let mut a = Assignments::new();
    a.assign_to_tenant(7, &vec![3, 4]);
    assert!(a.row_is_default(7, 3));
    assert!(!a.row_is_default(7, 4));
    a.assign_to_tenant(7, &vec![4, 3]);
    assert!(a.row_is_default(7, 3));
    a.set_default(7, 4).unwrap();
    assert!(a.row_is_default(7, 4));
    assert!(!a.row_is_default(7, 3));
    assert!(matches!(a.set_default(7, 9), Err(AppError::BadRequest(_))));
}
