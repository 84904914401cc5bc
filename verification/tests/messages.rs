//! What users are told.

use rbac::acl::ObjectType;
use rbac::error::{ErrorMessageObjectDescription, UnauthorizedError};
use rbac::text::quoted;

#[test]
fn superuser_message_and_detail() {
    let error = UnauthorizedError::Superuser { action: "dump catalog".to_string() };
    assert_eq!(error.message(), "permission denied to dump catalog");
    assert_eq!(error.detail(), Some("You must be a superuser to dump catalog".to_string()));
}

#[test]
fn mz_system_message_and_detail() {
    let error = UnauthorizedError::MzSystem { action: "alter system".to_string() };
    assert_eq!(error.message(), "permission denied to alter system");
    assert_eq!(error.detail(), Some("You must be the 'mz_system' role".to_string()));
}

#[test]
fn mz_introspection_message_and_detail() {
    let error = UnauthorizedError::MzIntrospection { action: "write".to_string() };
    assert_eq!(error.message(), "permission denied to write");
    assert_eq!(
        error.detail(),
        Some("The 'mz_introspection' role has very limited privileges".to_string())
    );
}

#[test]
fn ownership_message_lists_all_objects() {
    let error = UnauthorizedError::Ownership {
        objects: vec![
            (ObjectType::Table, "materialize.public.t".to_string()),
            (ObjectType::ClusterReplica, "c.r1".to_string()),
            (ObjectType::MaterializedView, "materialize.public.mv".to_string()),
        ],
    };
    assert_eq!(
        error.message(),
        "must be owner of TABLE materialize.public.t, CLUSTER REPLICA c.r1, MATERIALIZED VIEW \
         materialize.public.mv"
    );
    assert_eq!(error.detail(), None);
}

#[test]
fn ownership_message_of_one_object_has_no_separator() {
    let error =
        UnauthorizedError::Ownership { objects: vec![(ObjectType::Func, "f".to_string())] };
    assert_eq!(error.message(), "must be owner of FUNCTION f");
}

#[test]
fn ownership_message_of_nothing_is_bare() {
    let error = UnauthorizedError::Ownership { objects: Vec::new() };
    assert_eq!(error.message(), "must be owner of ");
}

#[test]
fn membership_message_quotes_all_roles() {
    let error = UnauthorizedError::RoleMembership {
        role_names: vec!["joe".to_string(), "a\"b".to_string(), String::new()],
    };
    assert_eq!(error.message(), "must be a member of \"joe\", \"a\\\"b\", \"\"");
    assert_eq!(error.detail(), None);
}

#[test]
fn privilege_message_describes_the_object() {
    let error = UnauthorizedError::Privilege {
        object_description: ErrorMessageObjectDescription::Object {
            object_type: ObjectType::Schema,
            object_name: "materialize.public".to_string(),
        },
    };
    assert_eq!(error.message(), "permission denied for SCHEMA \"materialize.public\"");
    assert_eq!(error.detail(), None);
    let error = UnauthorizedError::Privilege {
        object_description: ErrorMessageObjectDescription::System,
    };
    assert_eq!(error.message(), "permission denied for SYSTEM");
}

#[test]
fn quotes_are_escaped_and_nothing_else() {
    assert_eq!(quoted(""), "\"\"");
    assert_eq!(quoted("plain"), "\"plain\"");
    assert_eq!(quoted("\"\""), "\"\\\"\\\"\"");
    assert_eq!(quoted("a\\b"), "\"a\\b\"");
    assert_eq!(quoted("\u{e9}\u{1f600}"), "\"\u{e9}\u{1f600}\"");
}

#[test]
fn every_type_has_its_word() {
    let words = [
        (ObjectType::Table, "TABLE"),
        (ObjectType::View, "VIEW"),
        (ObjectType::MaterializedView, "MATERIALIZED VIEW"),
        (ObjectType::Source, "SOURCE"),
        (ObjectType::Sink, "SINK"),
        (ObjectType::Index, "INDEX"),
        (ObjectType::Type, "TYPE"),
        (ObjectType::Role, "ROLE"),
        (ObjectType::Cluster, "CLUSTER"),
        (ObjectType::ClusterReplica, "CLUSTER REPLICA"),
        (ObjectType::Secret, "SECRET"),
        (ObjectType::Connection, "CONNECTION"),
        (ObjectType::Database, "DATABASE"),
        (ObjectType::Schema, "SCHEMA"),
        (ObjectType::Func, "FUNCTION"),
    ];
    for (object_type, word) in words {
        assert_eq!(object_type.as_str(), word);
    }
}
