//! The privileges that reading and referring to items takes.

use rbac::acl::{AclMode, CatalogItemType, Privilege};
use rbac::catalog::{CatalogContents, CatalogItem, SessionCatalog, SystemVars};
use rbac::id_set::IdSet;
use rbac::ids::{
    ClusterId, DatabaseId, GlobalId, ItemQualifiers, ObjectId, QualifiedItemName,
    ResolvedDatabaseSpecifier, RoleId, SchemaId, SchemaSpecifier, SystemObjectId,
};
use rbac::plan::MirRelationExpr;
use rbac::reads::{
    generate_read_privileges, generate_read_privileges_inner, try_generate_read_privileges_inner,
    Requirement, Seen,
};
use rbac::usage::{
    generate_cluster_usage_privileges, generate_item_usage_privileges,
    generate_item_usage_privileges_inner,
};

fn in_schema(schema: u64) -> ItemQualifiers {
    ItemQualifiers {
        database_spec: ResolvedDatabaseSpecifier::Id(DatabaseId::User(1)),
        schema_spec: SchemaSpecifier::Id(SchemaId::User(schema)),
    }
}

fn item(
    id: u64,
    schema: u64,
    item_type: CatalogItemType,
    owner: u64,
    uses: &[u64],
) -> CatalogItem {
    CatalogItem {
        id: GlobalId::User(id),
        name: QualifiedItemName { qualifiers: in_schema(schema), item: format!("i{id}") },
        full_name: format!("materialize.s{schema}.i{id}"),
        item_type,
        owner_id: RoleId::User(owner),
        uses: uses.iter().map(|id| GlobalId::User(*id)).collect(),
        privileges: Vec::new(),
    }
}

fn catalog(items: Vec<CatalogItem>) -> SessionCatalog {
    SessionCatalog::new(CatalogContents {
        system_vars: SystemVars { enable_ld_rbac_checks: true, enable_rbac_checks: true },
        roles: Vec::new(),
        clusters: Vec::new(),
        cluster_replicas: Vec::new(),
        databases: Vec::new(),
        schemas: Vec::new(),
        items,
        system_privileges: Vec::new(),
    })
}

fn ids(ids: &[u64]) -> Vec<GlobalId> {
    ids.iter().map(|id| GlobalId::User(*id)).collect()
}

fn on_schema(schema: u64, role: u64) -> Requirement {
    (
        SystemObjectId::Object(in_schema(schema).schema_id()),
        AclMode::only(Privilege::Usage),
        RoleId::User(role),
    )
}

fn on_item(id: u64, privilege: Privilege, role: u64) -> Requirement {
    (
        SystemObjectId::Object(ObjectId::Item(GlobalId::User(id))),
        AclMode::only(privilege),
        RoleId::User(role),
    )
}

#[test]
fn reading_tables_takes_select_and_their_schemas_once() {
    let catalog = catalog(vec![
        item(1, 1, CatalogItemType::Table, 9, &[]),
        item(2, 1, CatalogItemType::Source, 9, &[]),
        item(3, 2, CatalogItemType::Table, 9, &[]),
    ]);
    assert_eq!(
        generate_read_privileges(&catalog, &ids(&[2, 3, 1, 2]), RoleId::User(5)),
        vec![
            on_schema(1, 5),
            on_item(2, Privilege::Select, 5),
            on_schema(2, 5),
            on_item(3, Privilege::Select, 5),
            on_item(1, Privilege::Select, 5),
        ]
    );
}

#[test]
fn reading_other_items_takes_usage_or_nothing() {
    let catalog = catalog(vec![
        item(1, 1, CatalogItemType::Type, 9, &[]),
        item(2, 1, CatalogItemType::Secret, 9, &[]),
        item(3, 1, CatalogItemType::Connection, 9, &[]),
        item(4, 2, CatalogItemType::Sink, 9, &[1]),
        item(5, 2, CatalogItemType::Index, 9, &[1]),
        item(6, 2, CatalogItemType::Func, 9, &[]),
    ]);
    assert_eq!(
        generate_read_privileges(&catalog, &ids(&[1, 2, 3, 4, 5, 6]), RoleId::User(5)),
        vec![
            on_schema(1, 5),
            on_item(1, Privilege::Usage, 5),
            on_item(2, Privilege::Usage, 5),
            on_item(3, Privilege::Usage, 5),
            on_schema(2, 5),
        ]
    );
}

#[test]
fn views_are_read_on_behalf_of_their_owners() {
    // A view of one owner reads a materialized view of another, which reads a table.
    let catalog = catalog(vec![
        item(1, 1, CatalogItemType::Table, 7, &[]),
        item(2, 1, CatalogItemType::MaterializedView, 7, &[1]),
        item(3, 2, CatalogItemType::View, 8, &[2]),
    ]);
    assert_eq!(
        generate_read_privileges(&catalog, &ids(&[3, 1]), RoleId::User(5)),
        vec![
            on_schema(2, 5),
            on_item(3, Privilege::Select, 5),
            on_schema(1, 5),
            on_item(1, Privilege::Select, 5),
            on_schema(1, 8),
            on_item(2, Privilege::Select, 8),
            on_schema(1, 7),
            on_item(1, Privilege::Select, 7),
        ]
    );
}

#[test]
fn nested_views_come_before_the_next_view() {
    let catalog = catalog(vec![
        item(1, 1, CatalogItemType::Table, 7, &[]),
        item(2, 1, CatalogItemType::Table, 7, &[]),
        item(3, 1, CatalogItemType::View, 6, &[1]),
        item(4, 1, CatalogItemType::View, 8, &[3]),
        item(5, 1, CatalogItemType::View, 9, &[2]),
    ]);
    assert_eq!(
        generate_read_privileges(&catalog, &ids(&[4, 5]), RoleId::User(5)),
        vec![
            on_schema(1, 5),
            on_item(4, Privilege::Select, 5),
            on_item(5, Privilege::Select, 5),
            on_schema(1, 8),
            on_item(3, Privilege::Select, 8),
            on_schema(1, 6),
            on_item(1, Privilege::Select, 6),
            on_schema(1, 9),
            on_item(2, Privilege::Select, 9),
        ]
    );
}

#[test]
fn views_that_read_each_other_are_read_once() {
    let catalog = catalog(vec![
        item(1, 1, CatalogItemType::View, 7, &[2]),
        item(2, 1, CatalogItemType::View, 7, &[1]),
    ]);
    assert_eq!(
        generate_read_privileges(&catalog, &ids(&[1]), RoleId::User(7)),
        vec![
            on_schema(1, 7),
            on_item(1, Privilege::Select, 7),
            on_item(2, Privilege::Select, 7),
        ]
    );
    assert_eq!(
        generate_read_privileges(&catalog, &ids(&[1]), RoleId::User(5)),
        vec![
            on_schema(1, 5),
            on_item(1, Privilege::Select, 5),
            on_schema(1, 7),
            on_item(2, Privilege::Select, 7),
            on_item(1, Privilege::Select, 7),
        ]
    );
}

#[test]
fn what_was_seen_is_left_out_and_taken_down() {
    let catalog = catalog(vec![
        item(1, 1, CatalogItemType::Table, 7, &[]),
        item(2, 1, CatalogItemType::Table, 7, &[]),
    ]);
    let mut seen = Seen::new();
    assert!(seen.insert(in_schema(1).schema_id(), RoleId::User(5)));
    assert!(seen.insert(ObjectId::Item(GlobalId::User(1)), RoleId::User(5)));
    assert!(!seen.insert(ObjectId::Item(GlobalId::User(1)), RoleId::User(5)));
    assert_eq!(
        generate_read_privileges_inner(&catalog, &ids(&[1, 2]), RoleId::User(5), &mut seen),
        vec![on_item(2, Privilege::Select, 5)]
    );
    assert!(seen.contains(ObjectId::Item(GlobalId::User(2)), RoleId::User(5)));
    assert!(!seen.contains(ObjectId::Item(GlobalId::User(2)), RoleId::User(6)));
    assert_eq!(
        generate_read_privileges_inner(&catalog, &ids(&[1, 2]), RoleId::User(5), &mut seen),
        Vec::new()
    );
}

#[test]
fn reading_nothing_takes_nothing() {
    let catalog = catalog(Vec::new());
    assert_eq!(generate_read_privileges(&catalog, &Vec::new(), RoleId::User(5)), Vec::new());
}

#[test]
fn references_take_usage_once_and_in_order() {
    let catalog = catalog(vec![
        item(1, 1, CatalogItemType::Table, 7, &[]),
        item(2, 1, CatalogItemType::Secret, 7, &[]),
        item(3, 1, CatalogItemType::Connection, 7, &[]),
        item(4, 1, CatalogItemType::Type, 7, &[]),
        item(5, 1, CatalogItemType::View, 7, &[]),
    ]);
    assert_eq!(
        generate_item_usage_privileges(&catalog, &ids(&[4, 3, 1, 4, 2, 5, 3]), RoleId::User(5)),
        vec![
            on_item(2, Privilege::Usage, 5),
            on_item(3, Privilege::Usage, 5),
            on_item(4, Privilege::Usage, 5),
        ]
    );
    let seen = IdSet::from_ids(&ids(&[3]));
    assert_eq!(
        generate_item_usage_privileges_inner(
            &catalog,
            &ids(&[4, 3, 1, 2]),
            RoleId::User(5),
            &seen
        ),
        vec![on_item(2, Privilege::Usage, 5), on_item(4, Privilege::Usage, 5)]
    );
}

#[test]
fn constants_take_no_cluster() {
    let expr = |is_const| MirRelationExpr { depends_on: IdSet::new(), is_const };
    let cluster = ClusterId::User(1);
    let role = RoleId::User(5);
    assert_eq!(
        generate_cluster_usage_privileges(&expr(false), Some(cluster), role),
        Some((
            SystemObjectId::Object(ObjectId::Cluster(cluster)),
            AclMode::only(Privilege::Usage),
            role
        ))
    );
    assert_eq!(generate_cluster_usage_privileges(&expr(true), Some(cluster), role), None);
    assert_eq!(generate_cluster_usage_privileges(&expr(false), None, role), None);
}

#[test]
fn only_what_is_read_need_be_known() {
    // A table, an index and one of the views refer to an item that does not exist.
    let catalog = catalog(vec![
        item(1, 1, CatalogItemType::Table, 7, &[99]),
        item(2, 1, CatalogItemType::View, 7, &[99]),
        item(3, 1, CatalogItemType::View, 7, &[1]),
        item(4, 1, CatalogItemType::Index, 7, &[99]),
        item(5, 1, CatalogItemType::View, 8, &[2]),
    ]);
    let read = |ids: &Vec<GlobalId>| {
        try_generate_read_privileges_inner(&catalog, ids, RoleId::User(7), &mut Seen::new())
    };
    assert_eq!(
        read(&ids(&[3, 4])),
        Some(vec![
            on_schema(1, 7),
            on_item(3, Privilege::Select, 7),
            on_item(1, Privilege::Select, 7),
        ])
    );
    assert_eq!(read(&ids(&[2])), None);
    assert_eq!(read(&ids(&[5])), None);
    assert_eq!(read(&ids(&[99])), None);
}

#[test]
fn what_was_seen_is_not_looked_up() {
    let catalog = catalog(vec![item(2, 1, CatalogItemType::View, 7, &[99])]);
    let mut seen = Seen::new();
    seen.insert(ObjectId::Item(GlobalId::User(2)), RoleId::User(5));
    assert_eq!(
        try_generate_read_privileges_inner(&catalog, &ids(&[2]), RoleId::User(5), &mut seen),
        Some(Vec::new())
    );
    assert_eq!(
        try_generate_read_privileges_inner(&catalog, &ids(&[2]), RoleId::User(6), &mut seen),
        None
    );
    // The view was looked at on behalf of the role all the same.
    assert!(seen.contains(ObjectId::Item(GlobalId::User(2)), RoleId::User(6)));
    assert!(!seen.contains(ObjectId::Item(GlobalId::User(99)), RoleId::User(7)));
}
