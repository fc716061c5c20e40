use liquid_protocol::converter::{ConvertedQuery, QueryCondition};
use liquid_protocol::security::{CurrentUser, SecurityEnforcer, SecurityPolicy};

type Predicate = Box<dyn Fn(&CurrentUser, &ConvertedQuery) -> bool + Send + Sync>;

/// Creates a CurrentUser with the given ID and permission strings
fn create_user(id: u64, permissions: &[&str]) -> CurrentUser {
    CurrentUser::new(id, permissions.iter().map(|s| s.to_string()).collect())
}

/// Creates a default SecurityEnforcer
fn create_enforcer() -> SecurityEnforcer<Predicate> {
    SecurityEnforcer::new()
}

/// Creates a ConvertedQuery for the given resource
fn create_query(resource: &str) -> ConvertedQuery {
    ConvertedQuery::new(resource.to_string())
}

/// A predicate policy from a closure
fn predicate_policy(
    name: &str,
    f: impl Fn(&CurrentUser, &ConvertedQuery) -> bool + Send + Sync + 'static,
) -> SecurityPolicy<Predicate> {
    SecurityPolicy::new(name, Box::new(f) as Predicate)
}

/// Asserts that a QueryCondition is an Eq condition with the expected field and value
fn assert_eq_condition(condition: &QueryCondition, expected_field: &str, expected_value: &str) {
    match condition {
        QueryCondition::Eq { field, value } => {
            assert_eq!(field, expected_field);
            assert_eq!(value, expected_value);
        }
        _ => panic!("Expected Eq condition for {}", expected_field),
    }
}

#[test]
fn security_test_current_user_creation() {
    let user = CurrentUser::new(123, vec!["read".to_string()]);
    assert_eq!(user.id(), 123);
    assert_eq!(user.permissions().len(), 1);
}

#[test]
fn test_has_permission() {
    let user = CurrentUser::new(1, vec!["admin".to_string(), "write".to_string()]);
    assert!(user.has_permission("admin"));
    assert!(user.has_permission("write"));
    assert!(!user.has_permission("delete"));
}

#[test]
fn test_security_enforcer_new() {
    let enforcer = SecurityEnforcer::<Predicate>::new();
    assert_eq!(enforcer.len(), 0);
}

#[test]
fn test_add_policy() {
    let mut enforcer = SecurityEnforcer::new();
    let policy = predicate_policy("test", |_, _| true);

    enforcer.add_policy_for_resource("users", policy);
    assert_eq!(enforcer.len(), 1);
}

#[test]
fn security_test_test_current_user_creation() {
    let user = create_user(123, &["read", "write"]);

    assert_eq!(user.id(), 123);
    assert_eq!(user.permissions().len(), 2);
    assert!(user.has_permission("read"));
    assert!(user.has_permission("write"));
    assert!(!user.has_permission("admin"));
}

#[test]
fn test_enforce_default_policy_adds_user_id_filter() {
    let user = create_user(42, &[]);
    let enforcer = create_enforcer();

    let mut query = create_query("users");

    let result = enforcer.enforce(&mut query, &user);
    assert!(result.is_ok());

    let conditions = query.conditions();
    assert_eq!(conditions.len(), 1);

    assert_eq_condition(&conditions[0], "user_id", "42");
}

#[test]
fn test_enforce_preserves_existing_filters() {
    let user = create_user(100, &[]);
    let enforcer = create_enforcer();

    let mut query = create_query("expenses");
    query.add_condition(QueryCondition::Eq {
        field: "category".to_string(),
        value: "food".to_string(),
    });

    let result = enforcer.enforce(&mut query, &user);
    assert!(result.is_ok());

    let conditions = query.conditions();
    assert_eq!(conditions.len(), 2);

    assert_eq_condition(&conditions[0], "category", "food");

    assert_eq_condition(&conditions[1], "user_id", "100");
}

#[test]
fn test_custom_policy_for_resource() {
    let user = create_user(50, &["admin"]);
    let mut enforcer = create_enforcer();

    let policy = predicate_policy("admin_full_access", |user, _query| user.has_permission("admin"));

    enforcer.add_policy_for_resource("users", policy);

    let mut query = create_query("users");
    let result = enforcer.enforce(&mut query, &user);

    assert!(result.is_ok());

    assert_eq!(query.conditions().len(), 0);
}

#[test]
fn test_custom_policy_denies_access() {
    let user = create_user(50, &[]);
    let mut enforcer = create_enforcer();

    let policy = predicate_policy("admin_only", |user, _query| user.has_permission("admin"));

    enforcer.add_policy_for_resource("sensitive_data", policy);

    let mut query = create_query("sensitive_data");
    let result = enforcer.enforce(&mut query, &user);

    assert!(result.is_err());
    let err = result.unwrap_err();
    assert_eq!(err.code(), "ACCESS_DENIED");
}

#[test]
fn test_policy_with_custom_field() {
    let user = create_user(200, &[]);
    let mut enforcer = create_enforcer();

    let policy = SecurityPolicy::custom_field("owner_id");

    enforcer.add_policy_for_resource("projects", policy);

    let mut query = create_query("projects");
    let result = enforcer.enforce(&mut query, &user);

    assert!(result.is_ok());

    let conditions = query.conditions();
    assert_eq!(conditions.len(), 1);

    assert_eq_condition(&conditions[0], "owner_id", "200");
}

#[test]
fn test_enforce_multiple_resources() {
    let user = create_user(10, &[]);
    let enforcer = create_enforcer();

    let resources = vec!["users", "expenses", "orders"];

    for resource in resources {
        let mut query = create_query(resource);
        let result = enforcer.enforce(&mut query, &user);

        assert!(result.is_ok());
        assert_eq!(query.conditions().len(), 1);
    }
}

#[test]
fn test_security_enforcer_default() {
    let _enforcer: SecurityEnforcer<Predicate> = SecurityEnforcer::default();
}

#[test]
fn test_current_user_no_permissions() {
    let user = create_user(1, &[]);

    assert_eq!(user.permissions().len(), 0);
    assert!(!user.has_permission("any"));
}

#[test]
fn test_enforce_idempotency() {
    let user = create_user(99, &[]);
    let enforcer = create_enforcer();

    let mut query = create_query("data");

    enforcer.enforce(&mut query, &user).unwrap();
    let conditions_1 = query.conditions().len();

    enforcer.enforce(&mut query, &user).unwrap();
    let conditions_2 = query.conditions().len();

    assert_eq!(conditions_2, conditions_1 * 2);
}

#[test]
fn denied_query_is_left_unchanged() {
    let user = create_user(7, &["read"]);
    let mut enforcer = create_enforcer();
    enforcer.add_policy_for_resource(
        "ledger",
        predicate_policy("admin_only", |user, _query| user.has_permission("admin")),
    );
    let mut query = create_query("ledger");
    query.add_condition(QueryCondition::Eq { field: "year".to_string(), value: "2024".to_string() });
    query.set_limit(5);
    let err = enforcer.enforce(&mut query, &user).unwrap_err();
    assert_eq!(err.code(), "ACCESS_DENIED");
    assert_eq!(err.message(), "Access denied by policy: admin_only");
    assert_eq!(
        query.conditions(),
        &[QueryCondition::Eq { field: "year".to_string(), value: "2024".to_string() }]
    );
    assert_eq!(query.limit(), Some(5));
    assert_eq!(query.resource(), "ledger");
}

#[test]
fn predicate_sees_the_query() {
    let user = create_user(3, &[]);
    let mut enforcer = create_enforcer();
    enforcer.add_policy_for_resource(
        "reports",
        predicate_policy("limited_only", |_user, query| query.limit().is_some()),
    );
    let mut open = create_query("reports");
    assert!(enforcer.enforce(&mut open, &user).is_err());
    let mut limited = create_query("reports");
    limited.set_limit(10);
    assert!(enforcer.enforce(&mut limited, &user).is_ok());
    assert!(limited.conditions().is_empty());
}

#[test]
fn custom_field_policy_is_named_after_field() {
    let user = create_user(0, &[]);
    let mut enforcer = create_enforcer();
    enforcer.add_policy_for_resource("projects", SecurityPolicy::custom_field("owner_id"));
    let mut query = create_query("projects");
    query.add_condition(QueryCondition::Contains { field: "name".to_string(), value: "x".to_string() });
    enforcer.enforce(&mut query, &user).unwrap();
    assert_eq!(query.conditions().len(), 2);
    assert_eq_condition(&query.conditions()[1], "owner_id", "0");
}

#[test]
fn registering_again_replaces_policy() {
    let user = create_user(u64::MAX, &[]);
    let mut enforcer = create_enforcer();
    enforcer.add_policy_for_resource("docs", predicate_policy("deny", |_, _| false));
    enforcer.add_policy_for_resource("docs", SecurityPolicy::custom_field("author_id"));
    assert_eq!(enforcer.len(), 1);
    let mut query = create_query("docs");
    enforcer.enforce(&mut query, &user).unwrap();
    assert_eq_condition(&query.conditions()[0], "author_id", "18446744073709551615");
}

#[test]
fn other_resources_keep_default_policy() {
    let user = create_user(5, &[]);
    let mut enforcer = create_enforcer();
    enforcer.add_policy_for_resource("docs", predicate_policy("deny", |_, _| false));
    let mut query = create_query("notes");
    enforcer.enforce(&mut query, &user).unwrap();
    assert_eq_condition(&query.conditions()[0], "user_id", "5");
}

#[test]
fn verdict_maps_predicate_answer() {
    let policy = predicate_policy("editors", |_, _| true);
    assert!(policy.verdict(true).is_ok());
    let err = policy.verdict(false).unwrap_err();
    assert_eq!(err.code(), "ACCESS_DENIED");
    assert_eq!(err.message(), "Access denied by policy: editors");
    let custom: SecurityPolicy<Predicate> = SecurityPolicy::custom_field("team_id");
    assert_eq!(
        custom.verdict(false).unwrap_err().message(),
        "Access denied by policy: custom_field_team_id"
    );
}
