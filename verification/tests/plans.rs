//! Who may execute which plan.

use rbac::acl::{owner_privilege, AclMode, CatalogItemType, MzAclItem, ObjectType, Privilege};
use rbac::catalog::{
    CatalogCluster, CatalogClusterReplica, CatalogContents, CatalogDatabase, CatalogItem,
    CatalogRole, CatalogSchema, SessionCatalog, SystemVars,
};
use rbac::check::{
    check_object_privileges, check_plan, try_check_object_privileges, try_check_plan, Coordinator,
    RoleMembership,
};
use rbac::error::{AdapterError, UnauthorizedError};
use rbac::id_set::IdSet;
use rbac::ids::{
    ClusterId, DatabaseId, GlobalId, ItemQualifiers, ObjectId, QualifiedItemName, ReplicaId,
    ResolvedDatabaseSpecifier, RoleId, SchemaId, SchemaSpecifier, SystemObjectId,
};
use rbac::membership::{generate_required_role_membership, ConnMeta};
use rbac::ownership::{check_owner_roles, generate_required_ownership, ownership_err};
use rbac::plan::{
    AlterClusterPlan, AlterClusterReplicaRenamePlan, AlterDefaultPrivilegesPlan, AlterItemPlan,
    AlterOwnerPlan, CopyFromPlan, CreateClusterReplicaPlan, CreateConnectionPlan, CreateIndexPlan,
    CreateMaterializedViewPlan, CreateSchemaPlan, CreateSecretPlan, CreateSinkPlan,
    CreateSourcePlan, CreateSourcePlans, CreateTablePlan, CreateTypePlan, CreateViewPlan,
    DefaultPrivilegeObject, DropObjectsPlan, DropOwnedPlan, Index, InsertPlan, MaterializedView,
    MirRelationExpr, MirScalarExpr, MutationKind, Plan, ReadThenWritePlan, ReassignOwnedPlan,
    SelectPlan, ShowCreatePlan, SideEffectingFunc, Sink, SourceSinkClusterConfig, UpdatePrivilege,
    UpdatePrivilegesPlan, ValidateConnectionPlan,
};
use rbac::privileges::{
    generate_required_privileges, generate_required_source_privileges, is_plan_known,
};
use rbac::reads::Requirement;
use rbac::session::{
    check_command, is_rbac_enabled_for_session, is_rbac_enabled_for_system, Command, Session,
};
use std::collections::BTreeMap;

const ALICE: RoleId = RoleId::User(1);
const BOB: RoleId = RoleId::User(2);
const CAROL: RoleId = RoleId::User(3);

const CLUSTER: ClusterId = ClusterId::User(1);
const REPLICA: ReplicaId = ReplicaId::User(4);
const DATABASE: DatabaseId = DatabaseId::User(1);

const TABLE: GlobalId = GlobalId::User(1);
const VIEW: GlobalId = GlobalId::User(2);
const SECRET: GlobalId = GlobalId::User(3);
const CONNECTION: GlobalId = GlobalId::User(4);
const OTHER_TABLE: GlobalId = GlobalId::User(5);
const UNKNOWN: GlobalId = GlobalId::User(99);

const QUALIFIERS: ItemQualifiers = ItemQualifiers {
    database_spec: ResolvedDatabaseSpecifier::Id(DatabaseId::User(1)),
    schema_spec: SchemaSpecifier::Id(SchemaId::User(1)),
};

fn schema() -> ObjectId {
    QUALIFIERS.schema_id()
}

fn name(item: &str) -> QualifiedItemName {
    QualifiedItemName { qualifiers: QUALIFIERS, item: item.to_string() }
}

fn role(id: RoleId, name: &str, member_of: &[RoleId]) -> CatalogRole {
    let mut membership = vec![id, RoleId::Public];
    membership.extend_from_slice(member_of);
    CatalogRole { id, name: name.to_string(), membership: IdSet::from_ids(&membership) }
}

fn grant(grantee: RoleId, privileges: &[Privilege]) -> MzAclItem {
    let acl_mode = privileges
        .iter()
        .fold(AclMode::empty(), |mode, privilege| mode.union(AclMode::only(*privilege)));
    MzAclItem { grantee, grantor: RoleId::mz_system(), acl_mode }
}

fn item(
    id: GlobalId,
    item: &str,
    item_type: CatalogItemType,
    owner_id: RoleId,
    uses: &[GlobalId],
) -> CatalogItem {
    CatalogItem {
        id,
        name: name(item),
        full_name: format!("materialize.public.{item}"),
        item_type,
        owner_id,
        uses: uses.to_vec(),
        privileges: vec![owner_privilege(item_type.to_object_type(), owner_id)],
    }
}

/// Alice owns everything but a view and another table, which are Bob's. Bob is a member of Carol.
fn contents() -> CatalogContents {
    CatalogContents {
        system_vars: SystemVars { enable_ld_rbac_checks: true, enable_rbac_checks: true },
        roles: vec![
            role(ALICE, "alice", &[]),
            role(BOB, "bob", &[CAROL]),
            role(CAROL, "carol", &[]),
        ],
        clusters: vec![CatalogCluster {
            id: CLUSTER,
            name: "quickstart".to_string(),
            owner_id: ALICE,
            privileges: vec![owner_privilege(ObjectType::Cluster, ALICE)],
        }],
        cluster_replicas: vec![CatalogClusterReplica {
            cluster_id: CLUSTER,
            replica_id: REPLICA,
            qualified_name: "quickstart.r1".to_string(),
            owner_id: ALICE,
        }],
        databases: vec![CatalogDatabase {
            id: DATABASE,
            name: "materialize".to_string(),
            owner_id: ALICE,
            privileges: vec![
                owner_privilege(ObjectType::Database, ALICE),
                grant(RoleId::Public, &[Privilege::Usage]),
            ],
        }],
        schemas: vec![CatalogSchema {
            database_spec: QUALIFIERS.database_spec,
            schema_spec: QUALIFIERS.schema_spec,
            full_name: "materialize.public".to_string(),
            owner_id: ALICE,
            privileges: vec![
                owner_privilege(ObjectType::Schema, ALICE),
                grant(RoleId::Public, &[Privilege::Usage]),
            ],
        }],
        items: vec![
            item(TABLE, "t", CatalogItemType::Table, ALICE, &[]),
            item(VIEW, "v", CatalogItemType::View, BOB, &[TABLE]),
            item(SECRET, "s", CatalogItemType::Secret, ALICE, &[]),
            item(CONNECTION, "c", CatalogItemType::Connection, ALICE, &[SECRET]),
            item(OTHER_TABLE, "o", CatalogItemType::Table, BOB, &[]),
        ],
        system_privileges: vec![grant(CAROL, &[Privilege::CreateDb, Privilege::CreateRole])],
    }
}

fn catalog() -> SessionCatalog {
    SessionCatalog::new(contents())
}

fn session(role: RoleId) -> Session {
    Session {
        current_role_id: role,
        session_role_id: role,
        is_superuser: false,
        enable_session_rbac_checks: false,
    }
}

fn coordinator() -> Coordinator {
    let mut active_conns = BTreeMap::new();
    active_conns.insert(10, ConnMeta { authenticated_role: ALICE });
    Coordinator { active_conns }
}

fn expr(depends_on: &[GlobalId], is_const: bool) -> MirRelationExpr {
    MirRelationExpr { depends_on: IdSet::from_ids(&depends_on.to_vec()), is_const }
}

fn scalar(contains_column: bool) -> MirScalarExpr {
    MirScalarExpr { contains_column }
}

fn on(id: ObjectId, privilege: Privilege) -> Requirement {
    (SystemObjectId::Object(id), AclMode::only(privilege), ALICE)
}

fn on_item(id: GlobalId, privilege: Privilege) -> Requirement {
    on(ObjectId::Item(id), privilege)
}

fn on_system(privilege: Privilege) -> Requirement {
    (SystemObjectId::System, AclMode::only(privilege), ALICE)
}

/// What Alice must have to execute a plan.
fn required(plan: &Plan, target_cluster: Option<ClusterId>, depends_on: &[GlobalId]) -> Vec<Requirement> {
    let depends_on = depends_on.to_vec();
    assert!(is_plan_known(&catalog(), plan, &depends_on, ALICE));
    generate_required_privileges(&catalog(), plan, target_cluster, &depends_on, ALICE)
}

fn check_as(session: &Session, plan: &Plan, depends_on: &[GlobalId]) -> Result<(), AdapterError> {
    let depends_on = depends_on.to_vec();
    try_check_plan(&coordinator(), &catalog(), session, plan, Some(CLUSTER), &depends_on)
        .expect("the catalog knows all that is needed")
}

fn check(role: RoleId, plan: &Plan, depends_on: &[GlobalId]) -> Result<(), AdapterError> {
    check_as(&session(role), plan, depends_on)
}

fn message(checked: Result<(), AdapterError>) -> String {
    match checked {
        Err(AdapterError::Unauthorized(error)) => error.message(),
        other => panic!("not unauthorized: {other:?}"),
    }
}

fn select() -> Plan {
    Plan::Select(SelectPlan { source: expr(&[TABLE], false) })
}

fn alter(id: GlobalId) -> Plan {
    Plan::AlterItemRename(AlterItemPlan { id })
}

fn defaults(role_id: RoleId, schema_id: Option<SchemaId>) -> Plan {
    Plan::AlterDefaultPrivileges(AlterDefaultPrivilegesPlan {
        privilege_objects: vec![DefaultPrivilegeObject {
            role_id,
            database_id: Some(DATABASE),
            schema_id,
        }],
    })
}

#[test]
fn switches_combine() {
    let vars = |ld, server| SystemVars { enable_ld_rbac_checks: ld, enable_rbac_checks: server };
    for own in [false, true] {
        let session = Session { enable_session_rbac_checks: own, ..session(ALICE) };
        assert!(!is_rbac_enabled_for_session(&vars(false, false), &session));
        assert!(!is_rbac_enabled_for_session(&vars(false, true), &session));
        assert_eq!(is_rbac_enabled_for_session(&vars(true, false), &session), own);
        assert!(is_rbac_enabled_for_session(&vars(true, true), &session));
    }
    assert!(is_rbac_enabled_for_system(&vars(true, true)));
    assert!(!is_rbac_enabled_for_system(&vars(true, false)));
    assert!(!is_rbac_enabled_for_system(&vars(false, true)));
}

#[test]
fn only_superusers_dump_the_catalog() {
    let user = session(ALICE);
    let superuser = Session { is_superuser: true, ..user };
    match check_command(&catalog(), &Command::DumpCatalog { session: user }) {
        Err(error) => assert_eq!(error.message(), "permission denied to dump catalog"),
        Ok(()) => panic!("the catalog is dumped"),
    }
    assert!(check_command(&catalog(), &Command::DumpCatalog { session: superuser }).is_ok());
    assert!(check_command(&catalog(), &Command::Execute { session: user }).is_ok());
    assert!(check_command(&catalog(), &Command::SetSystemVars { session: user }).is_ok());
    assert!(check_command(&catalog(), &Command::CancelRequest).is_ok());
    let off = SessionCatalog::new(CatalogContents {
        system_vars: SystemVars { enable_ld_rbac_checks: false, enable_rbac_checks: true },
        ..contents()
    });
    assert!(check_command(&off, &Command::DumpCatalog { session: user }).is_ok());
}

#[test]
fn a_session_can_turn_checks_on_for_itself() {
    let quiet = SessionCatalog::new(CatalogContents {
        system_vars: SystemVars { enable_ld_rbac_checks: true, enable_rbac_checks: false },
        ..contents()
    });
    let user = session(ALICE);
    let strict = Session { enable_session_rbac_checks: true, ..user };
    assert!(check_command(&quiet, &Command::DumpCatalog { session: user }).is_ok());
    assert!(check_command(&quiet, &Command::DumpCatalog { session: strict }).is_err());
}

#[test]
fn dropped_roles_are_refused_everything() {
    let gone = RoleId::User(77);
    for is_superuser in [false, true] {
        let current = Session { current_role_id: gone, is_superuser, ..session(ALICE) };
        let started = Session { session_role_id: gone, is_superuser, ..session(ALICE) };
        for session in [current, started] {
            match check_as(&session, &Plan::EmptyQuery, &[]) {
                Err(AdapterError::ConcurrentRoleDrop(role)) => assert_eq!(role, gone),
                other => panic!("not refused: {other:?}"),
            }
        }
    }
}

#[test]
fn nothing_is_checked_where_checks_are_off() {
    let off = SessionCatalog::new(CatalogContents {
        system_vars: SystemVars { enable_ld_rbac_checks: false, enable_rbac_checks: true },
        ..contents()
    });
    let bob = session(BOB);
    let none = Vec::new();
    assert!(check(BOB, &alter(TABLE), &[]).is_err());
    assert!(check_plan(&coordinator(), &off, &bob, &alter(TABLE), None, &none).is_ok());
}

#[test]
fn superusers_may_do_everything() {
    let root = Session { is_superuser: true, ..session(BOB) };
    assert!(check_as(&root, &alter(TABLE), &[]).is_ok());
    assert!(check_as(&root, &defaults(RoleId::Public, None), &[]).is_ok());
    assert!(check_as(&root, &select(), &[TABLE]).is_ok());
}

#[test]
fn only_superusers_alter_defaults_for_all_roles() {
    assert!(check(ALICE, &defaults(ALICE, None), &[]).is_ok());
    match check(ALICE, &defaults(RoleId::Public, None), &[]) {
        Err(AdapterError::Unauthorized(error)) => {
            assert_eq!(
                error.message(),
                "permission denied to ALTER DEFAULT PRIVILEGES FOR ALL ROLES"
            );
            assert_eq!(
                error.detail(),
                Some("You must be a superuser to ALTER DEFAULT PRIVILEGES FOR ALL ROLES".to_string())
            );
        }
        other => panic!("not unauthorized: {other:?}"),
    }
}

#[test]
fn reads_need_the_privileges_of_everyone_concerned() {
    assert!(check(ALICE, &select(), &[TABLE]).is_ok());
    // Bob may use the schema but not select from the table.
    assert_eq!(
        message(check(BOB, &select(), &[TABLE])),
        "permission denied for TABLE \"materialize.public.t\""
    );
    // Bob owns the view, but that does not give him what the view reads.
    assert_eq!(
        message(check(BOB, &select(), &[VIEW])),
        "permission denied for TABLE \"materialize.public.t\""
    );
    // Once everything is granted, the cluster is still missing.
    let mut all = contents();
    all.items[0].privileges.push(grant(CAROL, &[Privilege::Select]));
    let granted = SessionCatalog::new(all);
    let depends_on = vec![VIEW];
    let checked =
        try_check_plan(&coordinator(), &granted, &session(BOB), &select(), Some(CLUSTER), &depends_on);
    assert_eq!(message(checked.unwrap()), "permission denied for CLUSTER \"quickstart\"");
    let checked =
        try_check_plan(&coordinator(), &granted, &session(BOB), &select(), None, &depends_on);
    assert!(checked.unwrap().is_ok());
}

#[test]
fn more_grants_take_nothing_away() {
    let depends_on = vec![TABLE];
    let mut more = contents();
    more.items[0].privileges.push(grant(BOB, &[Privilege::Select]));
    more.clusters[0].privileges.push(grant(RoleId::Public, &[Privilege::Usage]));
    let more = SessionCatalog::new(more);
    for (user, before) in [(ALICE, true), (BOB, false)] {
        assert_eq!(check(user, &select(), &depends_on).is_ok(), before);
        let checked = try_check_plan(
            &coordinator(),
            &more,
            &session(user),
            &select(),
            Some(CLUSTER),
            &depends_on,
        );
        assert!(checked.unwrap().is_ok());
    }
}

#[test]
fn system_privileges_come_through_membership() {
    assert_eq!(
        message(check(ALICE, &Plan::CreateDatabase, &[])),
        "permission denied for SYSTEM"
    );
    assert!(check(BOB, &Plan::CreateDatabase, &[]).is_ok());
    assert!(check(CAROL, &Plan::CreateRole, &[]).is_ok());
    assert_eq!(message(check(CAROL, &Plan::CreateCluster, &[])), "permission denied for SYSTEM");
}

#[test]
fn ownership_is_needed_to_alter() {
    assert!(check(ALICE, &alter(TABLE), &[]).is_ok());
    assert_eq!(
        message(check(BOB, &alter(TABLE), &[])),
        "must be owner of TABLE materialize.public.t"
    );
    // What Bob owns he may alter only where he may create in the schema.
    assert_eq!(
        message(check(BOB, &alter(OTHER_TABLE), &[])),
        "permission denied for SCHEMA \"materialize.public\""
    );
}

#[test]
fn all_unowned_objects_are_named_in_their_order() {
    let plan = Plan::DropObjects(DropObjectsPlan {
        referenced_ids: vec![
            ObjectId::Item(VIEW),
            ObjectId::Item(TABLE),
            ObjectId::Cluster(CLUSTER),
            ObjectId::ClusterReplica(CLUSTER, REPLICA),
            ObjectId::Database(DATABASE),
            schema(),
            ObjectId::Role(CAROL),
            ObjectId::Item(SECRET),
        ],
        object_type: ObjectType::Table,
    });
    assert_eq!(
        message(check(BOB, &plan, &[])),
        "must be owner of TABLE materialize.public.t, CLUSTER quickstart, CLUSTER REPLICA \
         quickstart.r1, DATABASE materialize, SCHEMA materialize.public, SECRET \
         materialize.public.s"
    );
}

#[test]
fn roles_have_no_owner() {
    let nobody = IdSet::new();
    assert!(check_owner_roles(&ObjectId::Role(ALICE), &nobody, &catalog()));
    assert!(!check_owner_roles(&ObjectId::Item(TABLE), &nobody, &catalog()));
    let alice = IdSet::from_ids(&vec![ALICE]);
    assert!(check_owner_roles(&ObjectId::Item(TABLE), &alice, &catalog()));
    assert!(ownership_err(Vec::new(), &catalog()).is_ok());
    match ownership_err(vec![ObjectId::Item(VIEW)], &catalog()) {
        Err(UnauthorizedError::Ownership { objects }) => {
            assert_eq!(
                objects,
                vec![(ObjectType::View, "materialize.public.v".to_string())]
            );
        }
        other => panic!("no such error: {other:?}"),
    }
}

#[test]
fn dropping_roles_takes_the_privilege_to_make_them() {
    let plan = Plan::DropObjects(DropObjectsPlan {
        referenced_ids: vec![ObjectId::Role(CAROL)],
        object_type: ObjectType::Role,
    });
    assert_eq!(required(&plan, None, &[]), vec![on_system(Privilege::CreateRole)]);
    assert!(check(BOB, &plan, &[]).is_ok());
    assert_eq!(message(check(ALICE, &plan, &[])), "permission denied for SYSTEM");
}

#[test]
fn missing_memberships_are_named_once_and_in_order() {
    let plan = Plan::ReassignOwned(ReassignOwnedPlan {
        old_roles: vec![CAROL, BOB, CAROL, ALICE],
        new_role: BOB,
    });
    assert_eq!(
        message(check(ALICE, &plan, &[])),
        "must be a member of \"bob\", \"carol\""
    );
    assert_eq!(message(check(BOB, &plan, &[])), "must be a member of \"alice\"");
}

#[test]
fn memberships_that_plans_take() {
    let conns = coordinator().active_conns;
    let roles = |plan: &Plan| generate_required_role_membership(plan, &conns);
    assert_eq!(
        roles(&Plan::AlterOwner(AlterOwnerPlan { id: ObjectId::Item(TABLE), new_owner: BOB })),
        vec![BOB]
    );
    assert_eq!(
        roles(&Plan::DropOwned(DropOwnedPlan { role_ids: vec![BOB, CAROL] })),
        vec![BOB, CAROL]
    );
    assert_eq!(
        roles(&Plan::ReassignOwned(ReassignOwnedPlan { old_roles: vec![BOB], new_role: CAROL })),
        vec![BOB, CAROL]
    );
    assert_eq!(roles(&defaults(RoleId::Public, None)), vec![RoleId::Public]);
    let cancel = |connection_id| {
        Plan::SideEffectingFunc(SideEffectingFunc::PgCancelBackend { connection_id })
    };
    assert_eq!(roles(&cancel(10)), vec![ALICE]);
    assert_eq!(roles(&cancel(11)), Vec::new());
    assert_eq!(roles(&select()), Vec::new());
}

#[test]
fn cancelling_takes_membership_of_who_is_connected() {
    let cancel = |connection_id| {
        Plan::SideEffectingFunc(SideEffectingFunc::PgCancelBackend { connection_id })
    };
    assert!(check(ALICE, &cancel(10), &[]).is_ok());
    assert_eq!(message(check(BOB, &cancel(10), &[])), "must be a member of \"alice\"");
    assert!(check(BOB, &cancel(11), &[]).is_ok());
}

#[test]
fn ownership_that_plans_take() {
    let owned = |plan: &Plan| generate_required_ownership(plan);
    let index = Plan::CreateIndex(CreateIndexPlan {
        name: name("i"),
        index: Index { on: TABLE, cluster_id: CLUSTER },
    });
    assert_eq!(owned(&index), vec![ObjectId::Item(TABLE)]);
    let view = |replace| Plan::CreateView(CreateViewPlan { name: name("v"), replace });
    assert_eq!(owned(&view(Some(VIEW))), vec![ObjectId::Item(VIEW)]);
    assert_eq!(owned(&view(None)), Vec::new());
    let materialized = |replace| {
        Plan::CreateMaterializedView(CreateMaterializedViewPlan {
            name: name("mv"),
            materialized_view: MaterializedView { cluster_id: CLUSTER },
            replace,
        })
    };
    assert_eq!(owned(&materialized(Some(VIEW))), vec![ObjectId::Item(VIEW)]);
    assert_eq!(owned(&materialized(None)), Vec::new());
    assert_eq!(
        owned(&Plan::AlterCluster(AlterClusterPlan { id: CLUSTER })),
        vec![ObjectId::Cluster(CLUSTER)]
    );
    assert_eq!(
        owned(&Plan::AlterClusterRename(AlterClusterPlan { id: CLUSTER })),
        vec![ObjectId::Cluster(CLUSTER)]
    );
    assert_eq!(
        owned(&Plan::AlterClusterReplicaRename(AlterClusterReplicaRenamePlan {
            cluster_id: CLUSTER,
            replica_id: REPLICA,
        })),
        vec![ObjectId::ClusterReplica(CLUSTER, REPLICA)]
    );
    for plan in [
        Plan::AlterIndexSetOptions(AlterItemPlan { id: TABLE }),
        Plan::AlterIndexResetOptions(AlterItemPlan { id: TABLE }),
        Plan::AlterSink(AlterItemPlan { id: TABLE }),
        Plan::AlterSource(AlterItemPlan { id: TABLE }),
        Plan::AlterItemRename(AlterItemPlan { id: TABLE }),
        Plan::AlterSecret(AlterItemPlan { id: TABLE }),
        Plan::RotateKeys(AlterItemPlan { id: TABLE }),
    ] {
        assert_eq!(owned(&plan), vec![ObjectId::Item(TABLE)]);
        assert_eq!(required(&plan, None, &[]), vec![on(schema(), Privilege::Create)]);
    }
    let updates = || UpdatePrivilegesPlan {
        update_privileges: vec![
            UpdatePrivilege { target_id: SystemObjectId::System },
            UpdatePrivilege { target_id: SystemObjectId::Object(schema()) },
            UpdatePrivilege { target_id: SystemObjectId::Object(ObjectId::Item(TABLE)) },
        ],
    };
    for plan in [Plan::GrantPrivileges(updates()), Plan::RevokePrivileges(updates())] {
        assert_eq!(owned(&plan), vec![schema(), ObjectId::Item(TABLE)]);
        assert_eq!(
            required(&plan, None, &[]),
            vec![on(ObjectId::Database(DATABASE), Privilege::Usage), on(schema(), Privilege::Usage)]
        );
    }
    assert_eq!(owned(&Plan::DropOwned(DropOwnedPlan { role_ids: vec![BOB] })), Vec::new());
}

#[test]
fn privileges_that_making_objects_takes() {
    let depends_on = [SECRET, TABLE, CONNECTION, SECRET];
    let create = on(schema(), Privilege::Create);
    let references = [on_item(SECRET, Privilege::Usage), on_item(CONNECTION, Privilege::Usage)];
    let in_schema: Vec<Requirement> = [&[create], &references[..]].concat();
    for plan in [
        Plan::CreateConnection(CreateConnectionPlan { name: name("x") }),
        Plan::CreateTable(CreateTablePlan { name: name("x") }),
        Plan::CreateView(CreateViewPlan { name: name("x"), replace: None }),
        Plan::CreateType(CreateTypePlan { name: name("x") }),
    ] {
        assert_eq!(required(&plan, None, &depends_on), in_schema);
    }
    let on_cluster: Vec<Requirement> =
        [&[create, on(ObjectId::Cluster(CLUSTER), Privilege::Create)], &references[..]].concat();
    for plan in [
        Plan::CreateMaterializedView(CreateMaterializedViewPlan {
            name: name("x"),
            materialized_view: MaterializedView { cluster_id: CLUSTER },
            replace: None,
        }),
        Plan::CreateIndex(CreateIndexPlan {
            name: name("x"),
            index: Index { on: TABLE, cluster_id: CLUSTER },
        }),
        Plan::CreateSource(CreateSourcePlan {
            name: name("x"),
            cluster_config: SourceSinkClusterConfig::Existing { id: CLUSTER },
        }),
    ] {
        assert_eq!(required(&plan, None, &depends_on), on_cluster);
    }
    let secret = Plan::CreateSecret(CreateSecretPlan { name: name("x") });
    assert_eq!(required(&secret, None, &depends_on), vec![create]);
    let replica = Plan::CreateClusterReplica(CreateClusterReplicaPlan { cluster_id: CLUSTER });
    assert_eq!(
        required(&replica, None, &[]),
        vec![on(ObjectId::Cluster(CLUSTER), Privilege::Create)]
    );
    let in_database = |database_spec| Plan::CreateSchema(CreateSchemaPlan { database_spec });
    assert_eq!(
        required(&in_database(ResolvedDatabaseSpecifier::Id(DATABASE)), None, &[]),
        vec![on(ObjectId::Database(DATABASE), Privilege::Create)]
    );
    assert_eq!(required(&in_database(ResolvedDatabaseSpecifier::Ambient), None, &[]), Vec::new());
    assert_eq!(required(&Plan::CreateDatabase, None, &[]), vec![on_system(Privilege::CreateDb)]);
    assert_eq!(
        required(&Plan::CreateCluster, None, &[]),
        vec![on_system(Privilege::CreateCluster)]
    );
    for plan in [Plan::CreateRole, Plan::AlterRole, Plan::GrantRole, Plan::RevokeRole] {
        assert_eq!(required(&plan, None, &[]), vec![on_system(Privilege::CreateRole)]);
    }
}

#[test]
fn sources_without_a_cluster_take_the_privilege_to_make_one() {
    for cluster_config in [SourceSinkClusterConfig::Linked, SourceSinkClusterConfig::Undefined] {
        assert_eq!(
            generate_required_source_privileges(
                &catalog(),
                &name("x"),
                &cluster_config,
                &vec![CONNECTION],
                ALICE
            ),
            vec![
                on(schema(), Privilege::Create),
                on_system(Privilege::CreateCluster),
                on_item(CONNECTION, Privilege::Usage),
            ]
        );
    }
}

#[test]
fn sources_made_together_may_refer_to_each_other() {
    let plans = Plan::CreateSources(vec![
        CreateSourcePlans {
            plan: CreateSourcePlan {
                name: name("x"),
                cluster_config: SourceSinkClusterConfig::Linked,
            },
            depends_on: vec![CONNECTION],
        },
        CreateSourcePlans {
            plan: CreateSourcePlan {
                name: name("y"),
                cluster_config: SourceSinkClusterConfig::Existing { id: CLUSTER },
            },
            depends_on: vec![UNKNOWN, CONNECTION, SECRET],
        },
    ]);
    assert_eq!(
        required(&plans, None, &[UNKNOWN]),
        vec![
            on(schema(), Privilege::Create),
            on_system(Privilege::CreateCluster),
            on_item(CONNECTION, Privilege::Usage),
            on(schema(), Privilege::Create),
            on(ObjectId::Cluster(CLUSTER), Privilege::Create),
            on_item(SECRET, Privilege::Usage),
            on_item(CONNECTION, Privilege::Usage),
        ]
    );
}

#[test]
fn sinks_read_what_they_write() {
    let sink = |cluster_config| {
        Plan::CreateSink(CreateSinkPlan {
            name: name("x"),
            sink: Sink { from: TABLE },
            cluster_config,
        })
    };
    assert_eq!(
        required(&sink(SourceSinkClusterConfig::Existing { id: CLUSTER }), None, &[]),
        vec![
            on(schema(), Privilege::Create),
            on(schema(), Privilege::Usage),
            on_item(TABLE, Privilege::Select),
            on(ObjectId::Cluster(CLUSTER), Privilege::Create),
        ]
    );
    assert_eq!(
        required(&sink(SourceSinkClusterConfig::Linked), None, &[]).last(),
        Some(&on_system(Privilege::CreateCluster))
    );
}

#[test]
fn privileges_that_queries_take() {
    let read = [on(schema(), Privilege::Usage), on_item(TABLE, Privilege::Select)];
    let cluster = on(ObjectId::Cluster(CLUSTER), Privilege::Usage);
    let select = |is_const| Plan::Select(SelectPlan { source: expr(&[TABLE], is_const) });
    let with_cluster = [&read[..], &[cluster]].concat();
    assert_eq!(required(&select(false), Some(CLUSTER), &[TABLE]), with_cluster);
    assert_eq!(required(&select(false), None, &[TABLE]), read.to_vec());
    assert_eq!(required(&select(true), Some(CLUSTER), &[TABLE]), read.to_vec());
    assert_eq!(required(&Plan::Subscribe, Some(CLUSTER), &[TABLE]), with_cluster);
    assert_eq!(required(&Plan::Subscribe, None, &[TABLE]), read.to_vec());
    assert_eq!(required(&Plan::Explain, Some(CLUSTER), &[TABLE]), read.to_vec());
    assert_eq!(
        required(&Plan::ShowCreate(ShowCreatePlan { id: TABLE }), None, &[]),
        vec![on(schema(), Privilege::Usage)]
    );
    assert_eq!(
        required(&Plan::ValidateConnection(ValidateConnectionPlan { id: CONNECTION }), None, &[]),
        vec![on(schema(), Privilege::Usage), on_item(CONNECTION, Privilege::Usage)]
    );
    assert_eq!(
        required(&Plan::CopyFrom(CopyFromPlan { id: TABLE }), None, &[]),
        vec![on(schema(), Privilege::Usage), on_item(TABLE, Privilege::Insert)]
    );
}

#[test]
fn privileges_that_insertions_take() {
    let cluster = on(ObjectId::Cluster(CLUSTER), Privilege::Usage);
    let insert = |values: MirRelationExpr, returning: Vec<MirScalarExpr>| {
        Plan::Insert(InsertPlan { id: TABLE, values, returning })
    };
    let write = [on(schema(), Privilege::Usage), on_item(TABLE, Privilege::Insert)];
    assert_eq!(
        required(&insert(expr(&[], true), Vec::new()), Some(CLUSTER), &[TABLE]),
        write.to_vec()
    );
    // What is returned takes the cluster, constant or not.
    assert_eq!(
        required(&insert(expr(&[], true), vec![scalar(false)]), Some(CLUSTER), &[TABLE]),
        [&write[..], &[cluster]].concat()
    );
    assert_eq!(
        required(&insert(expr(&[], true), vec![scalar(false)]), None, &[TABLE]),
        write.to_vec()
    );
    // A column of the table that is returned is read.
    assert_eq!(
        required(
            &insert(expr(&[TABLE, OTHER_TABLE], false), vec![scalar(false), scalar(true)]),
            Some(CLUSTER),
            &[SECRET, TABLE]
        ),
        [
            &write[..],
            &[
                on_item(TABLE, Privilege::Select),
                on_item(OTHER_TABLE, Privilege::Select),
                on_item(SECRET, Privilege::Usage),
                cluster,
            ]
        ]
        .concat()
    );
    // What the values read is read, and what they refer to is not listed again.
    assert_eq!(
        required(
            &insert(expr(&[SECRET, TABLE], false), Vec::new()),
            None,
            &[SECRET, CONNECTION, TABLE]
        ),
        [
            &write[..],
            &[
                on_item(TABLE, Privilege::Select),
                on_item(SECRET, Privilege::Usage),
                on_item(CONNECTION, Privilege::Usage),
            ]
        ]
        .concat()
    );
}

#[test]
fn privileges_that_mutations_take() {
    let cluster = on(ObjectId::Cluster(CLUSTER), Privilege::Usage);
    let mutate = |kind, assignments: Vec<MirScalarExpr>, returning: Vec<MirScalarExpr>| {
        Plan::ReadThenWrite(ReadThenWritePlan {
            id: TABLE,
            selection: expr(&[TABLE], false),
            assignments,
            kind,
            returning,
        })
    };
    for (kind, privilege) in [
        (MutationKind::Insert, Privilege::Insert),
        (MutationKind::Update, Privilege::Update),
        (MutationKind::Delete, Privilege::Delete),
    ] {
        // The table is read even where no expression refers to a column of it.
        for (assigned, returned) in [(false, false), (true, false), (false, true)] {
            assert_eq!(
                required(
                    &mutate(kind, vec![scalar(assigned)], vec![scalar(returned)]),
                    Some(CLUSTER),
                    &[TABLE]
                ),
                vec![
                    on(schema(), Privilege::Usage),
                    on_item(TABLE, privilege),
                    on_item(TABLE, Privilege::Select),
                    cluster,
                ]
            );
        }
    }
    let constant = Plan::ReadThenWrite(ReadThenWritePlan {
        id: TABLE,
        selection: expr(&[], true),
        assignments: Vec::new(),
        kind: MutationKind::Delete,
        returning: vec![scalar(false)],
    });
    assert_eq!(
        required(&constant, Some(CLUSTER), &[]),
        vec![on(schema(), Privilege::Usage), on_item(TABLE, Privilege::Delete)]
    );
}

#[test]
fn altering_an_owner_takes_the_container() {
    let privileges = |id| {
        required(&Plan::AlterOwner(AlterOwnerPlan { id, new_owner: ALICE }), None, &[])
    };
    assert_eq!(
        privileges(ObjectId::ClusterReplica(CLUSTER, REPLICA)),
        vec![on(ObjectId::Cluster(CLUSTER), Privilege::Create)]
    );
    assert_eq!(
        privileges(schema()),
        vec![on(ObjectId::Database(DATABASE), Privilege::Create)]
    );
    assert_eq!(
        privileges(ObjectId::Schema(ResolvedDatabaseSpecifier::Ambient, SchemaSpecifier::Temporary)),
        Vec::new()
    );
    assert_eq!(privileges(ObjectId::Item(TABLE)), vec![on(schema(), Privilege::Create)]);
    assert_eq!(privileges(ObjectId::Cluster(CLUSTER)), Vec::new());
    assert_eq!(privileges(ObjectId::Database(DATABASE)), Vec::new());
    assert_eq!(privileges(ObjectId::Role(BOB)), Vec::new());
}

#[test]
fn dropping_objects_takes_usage_of_their_containers() {
    let plan = Plan::DropObjects(DropObjectsPlan {
        referenced_ids: vec![
            ObjectId::Item(TABLE),
            ObjectId::Cluster(CLUSTER),
            ObjectId::ClusterReplica(CLUSTER, REPLICA),
            schema(),
        ],
        object_type: ObjectType::Table,
    });
    assert_eq!(
        required(&plan, None, &[]),
        vec![
            on(schema(), Privilege::Usage),
            on(ObjectId::Cluster(CLUSTER), Privilege::Usage),
            on(ObjectId::Database(DATABASE), Privilege::Usage),
        ]
    );
    assert!(check(ALICE, &plan, &[]).is_ok());
}

#[test]
fn default_privileges_in_a_schema_take_the_database() {
    assert_eq!(
        required(&defaults(ALICE, Some(SchemaId::User(1))), None, &[]),
        vec![on(ObjectId::Database(DATABASE), Privilege::Usage)]
    );
    assert_eq!(required(&defaults(ALICE, None), None, &[]), Vec::new());
}

#[test]
fn other_plans_take_nothing() {
    for plan in [
        Plan::DiscardTemp,
        Plan::DiscardAll,
        Plan::EmptyQuery,
        Plan::ShowAllVariables,
        Plan::ShowVariable,
        Plan::InspectShard,
        Plan::SetVariable,
        Plan::ResetVariable,
        Plan::SetTransaction,
        Plan::StartTransaction,
        Plan::CommitTransaction,
        Plan::AbortTransaction,
        Plan::CopyRows,
        Plan::AlterNoop,
        Plan::AlterSystemSet,
        Plan::AlterSystemReset,
        Plan::AlterSystemResetAll,
        Plan::Declare,
        Plan::Fetch,
        Plan::Close,
        Plan::Prepare,
        Plan::Execute,
        Plan::Deallocate,
        Plan::Raise,
    ] {
        assert_eq!(required(&plan, Some(CLUSTER), &[UNKNOWN]), Vec::new());
        assert_eq!(generate_required_ownership(&plan), Vec::new());
        assert!(check(CAROL, &plan, &[]).is_ok());
    }
}

#[test]
fn the_first_missing_privilege_decides() {
    let catalog = catalog();
    let on_table = |privilege| {
        (
            SystemObjectId::Object(ObjectId::Item(TABLE)),
            AclMode::only(privilege),
            BOB,
        )
    };
    let on_other = |privilege| {
        (
            SystemObjectId::Object(ObjectId::Item(OTHER_TABLE)),
            AclMode::only(privilege),
            BOB,
        )
    };
    assert!(check_object_privileges(&catalog, vec![on_other(Privilege::Delete)], Vec::new()).is_ok());
    let checked = check_object_privileges(
        &catalog,
        vec![
            on_other(Privilege::Select),
            on_table(Privilege::Select),
            (SystemObjectId::System, AclMode::only(Privilege::CreateCluster), BOB),
        ],
        Vec::new(),
    );
    assert_eq!(
        checked.unwrap_err().message(),
        "permission denied for TABLE \"materialize.public.t\""
    );
}

#[test]
fn memberships_that_were_looked_up_are_used() {
    let catalog = catalog();
    let on_table = (
        SystemObjectId::Object(ObjectId::Item(TABLE)),
        AclMode::only(Privilege::Select),
        BOB,
    );
    let known = |roles: Vec<RoleId>| {
        vec![RoleMembership { role_id: BOB, membership: IdSet::from_ids(&roles) }]
    };
    assert!(check_object_privileges(&catalog, vec![on_table], Vec::new()).is_err());
    assert!(check_object_privileges(&catalog, vec![on_table], known(vec![BOB, CAROL])).is_err());
    assert!(check_object_privileges(&catalog, vec![on_table], known(vec![BOB, ALICE])).is_ok());
}

#[test]
fn what_is_unknown_is_not_decided() {
    let catalog = catalog();
    let one = |id, role| vec![(id, AclMode::only(Privilege::Usage), role)];
    for (id, role) in [
        (SystemObjectId::Object(ObjectId::Item(UNKNOWN)), ALICE),
        (SystemObjectId::Object(ObjectId::ClusterReplica(CLUSTER, REPLICA)), ALICE),
        (SystemObjectId::Object(ObjectId::Role(ALICE)), ALICE),
        (SystemObjectId::System, RoleId::User(77)),
    ] {
        assert!(try_check_object_privileges(&catalog, one(id, role), Vec::new()).is_none());
    }
    let undecided = |plan: &Plan, depends_on: &[GlobalId]| {
        let depends_on = depends_on.to_vec();
        try_check_plan(&coordinator(), &catalog, &session(ALICE), plan, None, &depends_on).is_none()
    };
    assert!(undecided(&alter(UNKNOWN), &[]));
    assert!(undecided(&select(), &[UNKNOWN]));
    assert!(undecided(
        &Plan::DropOwned(DropOwnedPlan { role_ids: vec![RoleId::User(77)] }),
        &[]
    ));
    assert!(!undecided(&select(), &[TABLE]));
}

#[test]
fn of_records_with_one_key_the_last_counts() {
    let mut twice = contents();
    twice.items.push(item(TABLE, "renamed", CatalogItemType::Source, BOB, &[]));
    let catalog = SessionCatalog::new(twice);
    assert_eq!(
        catalog.describe(&ObjectId::Item(TABLE)),
        (ObjectType::Source, "materialize.public.renamed".to_string())
    );
    assert_eq!(catalog.get_owner_id(&ObjectId::Item(TABLE)), Some(BOB));
    assert_eq!(catalog.get_owner_id(&ObjectId::Role(ALICE)), None);
}

#[test]
fn references_that_are_not_read_change_nothing() {
    // Both tables and the view refer to an item that does not exist.
    let mut dangling = contents();
    dangling.items[0].uses.push(UNKNOWN);
    dangling.items[1].uses.push(UNKNOWN);
    dangling.items[4].uses.push(UNKNOWN);
    let catalog = SessionCatalog::new(dangling);
    let checked = |plan: &Plan, depends_on: &[GlobalId]| {
        let depends_on = depends_on.to_vec();
        try_check_plan(&coordinator(), &catalog, &session(ALICE), plan, Some(CLUSTER), &depends_on)
    };
    assert!(matches!(checked(&select(), &[TABLE]), Some(Ok(()))));
    assert!(matches!(checked(&alter(TABLE), &[]), Some(Ok(()))));
    assert!(matches!(
        checked(&Plan::CreateTable(CreateTablePlan { name: name("x") }), &[TABLE, VIEW]),
        Some(Ok(()))
    ));
    assert!(checked(&select(), &[VIEW]).is_none());
    // A write that refers to a column of the view does not read what the view reads.
    let insert = |returns: bool| {
        Plan::Insert(InsertPlan {
            id: VIEW,
            values: expr(&[VIEW], false),
            returning: vec![scalar(returns)],
        })
    };
    assert!(checked(&insert(true), &[VIEW]).is_some());
    assert!(checked(&insert(false), &[VIEW]).is_none());
}

#[test]
fn entries_are_described_by_their_kind() {
    let catalog = catalog();
    let kind = |id: ObjectId| catalog.describe(&id).0;
    assert_eq!(kind(ObjectId::Cluster(CLUSTER)), ObjectType::Cluster);
    assert_eq!(kind(ObjectId::ClusterReplica(CLUSTER, REPLICA)), ObjectType::ClusterReplica);
    assert_eq!(kind(ObjectId::Database(DATABASE)), ObjectType::Database);
    assert_eq!(kind(schema()), ObjectType::Schema);
    assert_eq!(kind(ObjectId::Item(VIEW)), ObjectType::View);
    assert_eq!(kind(ObjectId::Item(SECRET)), ObjectType::Secret);
}
