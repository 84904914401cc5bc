//! The privileges that one must have to execute a plan.

use crate::acl::{AclMode, ObjectType, Privilege};
use crate::catalog::{ItemView, SessionCatalog};
use crate::id_set::{in_order, IdSet};
use crate::ids::{
    ClusterId, GlobalId, ItemQualifiers, ObjectId, QualifiedItemName, ResolvedDatabaseSpecifier,
    RoleId, SystemObjectId,
};
use crate::ownership::{collect_targets, target_objects};
use crate::plan::{
    AlterItemPlan, AlterOwnerPlan, CopyFromPlan, CreateClusterReplicaPlan, CreateConnectionPlan,
    CreateIndexPlan, CreateMaterializedViewPlan, CreateSchemaPlan, CreateSecretPlan,
    CreateSinkPlan, CreateSourcePlan, CreateSourcePlans, CreateTablePlan, CreateTypePlan,
    CreateViewPlan, DefaultPrivilegeObject, DropObjectsPlan, InsertPlan, MirRelationExpr,
    MirScalarExpr, MutationKind, Plan, ReadThenWritePlan, SelectPlan, ShowCreatePlan,
    SourceSinkClusterConfig, UpdatePrivilege, ValidateConnectionPlan,
};
use crate::reads::{
    all_known, generate_read_privileges, generate_read_privileges_inner, read_known,
    read_requirements, reads, require, requirement, try_generate_read_privileges_inner, ReadFrame,
    Requirement, Seen,
};
use crate::usage::{
    cluster_usage, generate_cluster_usage_privileges, generate_item_usage_privileges,
    generate_item_usage_privileges_inner, usage_requirements,
};
use vstd::prelude::*;

verus! {

/// That `role` must have `privilege` on the system as a whole.
pub open spec fn system_requirement(privilege: Privilege, role: RoleId) -> Requirement {
    (SystemObjectId::System, AclMode::only(privilege), role)
}

/// What referring to `depends_on` takes.
pub open spec fn refer(
    items: Map<GlobalId, ItemView>,
    depends_on: Seq<GlobalId>,
    role: RoleId,
) -> Seq<Requirement> {
    usage_requirements(items, depends_on.to_set(), role, Set::empty())
}

/// That `role` must have `privilege` on a schema.
pub open spec fn on_schema(
    qualifiers: ItemQualifiers,
    privilege: Privilege,
    role: RoleId,
) -> Requirement {
    requirement(qualifiers.schema(), privilege, role)
}

/// What running a source or a sink on a cluster takes: the right to make one where none is given.
pub open spec fn on_cluster(config: SourceSinkClusterConfig, role: RoleId) -> Requirement {
    match config.cluster() {
        Some(id) => requirement(ObjectId::Cluster(id), Privilege::Create, role),
        None => system_requirement(Privilege::CreateCluster, role),
    }
}

/// What making a source takes.
pub open spec fn source_requirements(
    items: Map<GlobalId, ItemView>,
    qualifiers: ItemQualifiers,
    config: SourceSinkClusterConfig,
    depends_on: Seq<GlobalId>,
    role: RoleId,
) -> Seq<Requirement> {
    seq![on_schema(qualifiers, Privilege::Create, role), on_cluster(config, role)] + refer(
        items,
        depends_on,
        role,
    )
}

/// Those of `ids` that a catalog knows.
pub open spec fn existing(items: Map<GlobalId, ItemView>, ids: Seq<GlobalId>) -> Seq<GlobalId> {
    ids.filter(|id: GlobalId| items.contains_key(id))
}

/// What making several sources takes. What they refer to and is yet to be made takes nothing.
pub open spec fn sources_requirements(
    items: Map<GlobalId, ItemView>,
    plans: Seq<CreateSourcePlans>,
    role: RoleId,
) -> Seq<Requirement>
    decreases plans.len(),
{
    if plans.len() == 0 {
        seq![]
    } else {
        sources_requirements(items, plans.drop_last(), role) + source_requirements(
            items,
            plans.last().plan.name.qualifiers,
            plans.last().plan.cluster_config,
            existing(items, plans.last().depends_on@),
            role,
        )
    }
}

/// What it takes of what an object lies in: a replica's cluster, a schema's database, an item's
/// schema.
pub open spec fn on_container(
    items: Map<GlobalId, ItemView>,
    id: ObjectId,
    privilege: Privilege,
    role: RoleId,
) -> Seq<Requirement> {
    match id {
        ObjectId::ClusterReplica(cluster_id, _) => seq![
            requirement(ObjectId::Cluster(cluster_id), privilege, role),
        ],
        ObjectId::Schema(ResolvedDatabaseSpecifier::Id(database_id), _) => seq![
            requirement(ObjectId::Database(database_id), privilege, role),
        ],
        ObjectId::Schema(ResolvedDatabaseSpecifier::Ambient, _) => seq![],
        ObjectId::Item(id) => seq![on_schema(items[id].qualifiers, privilege, role)],
        ObjectId::Cluster(_) | ObjectId::Database(_) | ObjectId::Role(_) => seq![],
    }
}

/// What it takes of what objects lie in, one after the other.
pub open spec fn on_containers(
    items: Map<GlobalId, ItemView>,
    ids: Seq<ObjectId>,
    role: RoleId,
) -> Seq<Requirement>
    decreases ids.len(),
{
    if ids.len() == 0 {
        seq![]
    } else {
        on_containers(items, ids.drop_last(), role) + on_container(
            items,
            ids.last(),
            Privilege::Usage,
            role,
        )
    }
}

/// What altering default privileges takes: usage of the database where a schema is given.
pub open spec fn default_requirements(objects: Seq<DefaultPrivilegeObject>, role: RoleId) -> Seq<
    Requirement,
>
    decreases objects.len(),
{
    if objects.len() == 0 {
        seq![]
    } else {
        default_requirements(objects.drop_last(), role) + match (
            objects.last().database_id,
            objects.last().schema_id,
        ) {
            (Some(database_id), Some(_)) => seq![
                requirement(ObjectId::Database(database_id), Privilege::Usage, role),
            ],
            _ => seq![],
        }
    }
}

/// Whether one of some expressions refers to a column.
pub open spec fn any_column(exprs: Seq<MirScalarExpr>) -> bool {
    exists|i: int| 0 <= i < exprs.len() && (#[trigger] exprs[i]).contains_column
}

/// The items on which something is required.
pub open spec fn items_of(required: Seq<Requirement>) -> Set<GlobalId> {
    Set::new(
        |id: GlobalId|
            exists|i: int|
                0 <= i < required.len() && (#[trigger] required[i]).0 == SystemObjectId::Object(
                    ObjectId::Item(id),
                ),
    )
}

/// What writing to an item takes before anything is read: usage of its schema, the privilege to
/// write, and the privilege to select where a column of it is referred to.
pub open spec fn write_target(
    items: Map<GlobalId, ItemView>,
    id: GlobalId,
    privilege: Privilege,
    reads_column: bool,
    role: RoleId,
) -> Seq<Requirement> {
    seq![
        on_schema(items[id].qualifiers, Privilege::Usage, role),
        requirement(ObjectId::Item(id), privilege, role),
    ] + (if reads_column {
        seq![requirement(ObjectId::Item(id), Privilege::Select, role)]
    } else {
        seq![]
    })
}

/// What is required of the item that is written to and need not be required again.
pub open spec fn write_seen(
    items: Map<GlobalId, ItemView>,
    id: GlobalId,
    reads_column: bool,
    role: RoleId,
) -> Set<(ObjectId, RoleId)> {
    if reads_column {
        set![(items[id].qualifiers.schema(), role), (ObjectId::Item(id), role)]
    } else {
        set![(items[id].qualifiers.schema(), role)]
    }
}

/// What writing to an item and reading `source` for it takes.
pub open spec fn write_and_read(
    items: Map<GlobalId, ItemView>,
    id: GlobalId,
    privilege: Privilege,
    reads_column: bool,
    source: Set<GlobalId>,
    role: RoleId,
) -> Seq<Requirement> {
    write_target(items, id, privilege, reads_column, role) + reads(
        items,
        seq![ReadFrame { ids: in_order(source), role }],
        write_seen(items, id, reads_column, role),
    ).required
}

/// What writing to an item takes, but for the use of a cluster.
pub open spec fn write_requirements(
    items: Map<GlobalId, ItemView>,
    id: GlobalId,
    privilege: Privilege,
    reads_column: bool,
    source: Set<GlobalId>,
    depends_on: Seq<GlobalId>,
    role: RoleId,
) -> Seq<Requirement> {
    let required = write_and_read(items, id, privilege, reads_column, source, role);
    required + usage_requirements(items, depends_on.to_set(), role, items_of(required))
}

/// A requirement, if there is one.
pub open spec fn if_any(required: Option<Requirement>) -> Seq<Requirement> {
    match required {
        Some(required) => seq![required],
        None => seq![],
    }
}

/// What an insertion takes. What it returns takes the cluster even where that is constant.
pub open spec fn insert_requirements(
    items: Map<GlobalId, ItemView>,
    plan: InsertPlan,
    target_cluster: Option<ClusterId>,
    depends_on: Seq<GlobalId>,
    role: RoleId,
) -> Seq<Requirement> {
    write_requirements(
        items,
        plan.id,
        Privilege::Insert,
        any_column(plan.returning@),
        plan.values.depends_on@,
        depends_on,
        role,
    ) + if_any(
        cluster_usage(plan.values.is_const && plan.returning@.len() == 0, target_cluster, role),
    )
}

/// The privilege that a kind of mutation takes.
pub open spec fn mutation_privilege(kind: MutationKind) -> Privilege {
    match kind {
        MutationKind::Insert => Privilege::Insert,
        MutationKind::Update => Privilege::Update,
        MutationKind::Delete => Privilege::Delete,
    }
}

/// What a read followed by a write takes.
pub open spec fn read_then_write_requirements(
    items: Map<GlobalId, ItemView>,
    plan: ReadThenWritePlan,
    target_cluster: Option<ClusterId>,
    depends_on: Seq<GlobalId>,
    role: RoleId,
) -> Seq<Requirement> {
    write_requirements(
        items,
        plan.id,
        mutation_privilege(plan.kind),
        any_column(plan.assignments@) || any_column(plan.returning@),
        plan.selection.depends_on@,
        depends_on,
        role,
    ) + if_any(cluster_usage(plan.selection.is_const, target_cluster, role))
}

/// What executing `plan` takes.
pub open spec fn required_privileges(
    items: Map<GlobalId, ItemView>,
    plan: Plan,
    target_cluster: Option<ClusterId>,
    depends_on: Seq<GlobalId>,
    role: RoleId,
) -> Seq<Requirement> {
    match plan {
        Plan::CreateConnection(plan) => seq![
            on_schema(plan.name.qualifiers, Privilege::Create, role),
        ] + refer(items, depends_on, role),
        Plan::CreateDatabase => seq![system_requirement(Privilege::CreateDb, role)],
        Plan::CreateCluster => seq![system_requirement(Privilege::CreateCluster, role)],
        Plan::ValidateConnection(plan) => seq![
            on_schema(items[plan.id].qualifiers, Privilege::Usage, role),
            requirement(ObjectId::Item(plan.id), Privilege::Usage, role),
        ],
        Plan::CreateSchema(plan) => match plan.database_spec {
            ResolvedDatabaseSpecifier::Ambient => seq![],
            ResolvedDatabaseSpecifier::Id(database_id) => seq![
                requirement(ObjectId::Database(database_id), Privilege::Create, role),
            ],
        },
        Plan::CreateRole | Plan::AlterRole | Plan::GrantRole | Plan::RevokeRole => seq![
            system_requirement(Privilege::CreateRole, role),
        ],
        Plan::CreateClusterReplica(plan) => seq![
            requirement(ObjectId::Cluster(plan.cluster_id), Privilege::Create, role),
        ],
        Plan::CreateSource(plan) => source_requirements(
            items,
            plan.name.qualifiers,
            plan.cluster_config,
            depends_on,
            role,
        ),
        Plan::CreateSources(plans) => sources_requirements(items, plans@, role),
        Plan::CreateSecret(plan) => seq![on_schema(plan.name.qualifiers, Privilege::Create, role)],
        Plan::CreateSink(plan) => seq![on_schema(plan.name.qualifiers, Privilege::Create, role)]
            + read_requirements(items, seq![plan.sink.from], role) + seq![
            on_cluster(plan.cluster_config, role),
        ],
        Plan::CreateTable(plan) => seq![on_schema(plan.name.qualifiers, Privilege::Create, role)]
            + refer(items, depends_on, role),
        Plan::CreateView(plan) => seq![on_schema(plan.name.qualifiers, Privilege::Create, role)]
            + refer(items, depends_on, role),
        Plan::CreateMaterializedView(plan) => seq![
            on_schema(plan.name.qualifiers, Privilege::Create, role),
            requirement(
                ObjectId::Cluster(plan.materialized_view.cluster_id),
                Privilege::Create,
                role,
            ),
        ] + refer(items, depends_on, role),
        Plan::CreateIndex(plan) => seq![
            on_schema(plan.name.qualifiers, Privilege::Create, role),
            requirement(ObjectId::Cluster(plan.index.cluster_id), Privilege::Create, role),
        ] + refer(items, depends_on, role),
        Plan::CreateType(plan) => seq![on_schema(plan.name.qualifiers, Privilege::Create, role)]
            + refer(items, depends_on, role),
        Plan::DropObjects(plan) => if plan.object_type == ObjectType::Role {
            seq![system_requirement(Privilege::CreateRole, role)]
        } else {
            on_containers(items, plan.referenced_ids@, role)
        },
        Plan::ShowCreate(plan) => seq![
            on_schema(items[plan.id].qualifiers, Privilege::Usage, role),
        ],
        Plan::Select(plan) => read_requirements(items, depends_on, role) + if_any(
            cluster_usage(plan.source.is_const, target_cluster, role),
        ),
        Plan::Subscribe => read_requirements(items, depends_on, role) + if_any(
            cluster_usage(false, target_cluster, role),
        ),
        Plan::Explain => read_requirements(items, depends_on, role),
        Plan::CopyFrom(plan) => seq![
            on_schema(items[plan.id].qualifiers, Privilege::Usage, role),
            requirement(ObjectId::Item(plan.id), Privilege::Insert, role),
        ],
        Plan::Insert(plan) => insert_requirements(items, plan, target_cluster, depends_on, role),
        Plan::ReadThenWrite(plan) => read_then_write_requirements(
            items,
            plan,
            target_cluster,
            depends_on,
            role,
        ),
        Plan::AlterIndexSetOptions(plan)
        | Plan::AlterIndexResetOptions(plan)
        | Plan::AlterSink(plan)
        | Plan::AlterSource(plan)
        | Plan::AlterItemRename(plan)
        | Plan::AlterSecret(plan)
        | Plan::RotateKeys(plan) => seq![
            on_schema(items[plan.id].qualifiers, Privilege::Create, role),
        ],
        Plan::AlterOwner(plan) => on_container(items, plan.id, Privilege::Create, role),
        Plan::GrantPrivileges(plan) | Plan::RevokePrivileges(plan) => on_containers(
            items,
            target_objects(plan.update_privileges@),
            role,
        ),
        Plan::AlterDefaultPrivileges(plan) => default_requirements(plan.privilege_objects@, role),
        _ => seq![],
    }
}

/// Whether a catalog knows the items among some objects.
pub open spec fn objects_known(items: Map<GlobalId, ItemView>, ids: Seq<ObjectId>) -> bool {
    forall|i: int|
        0 <= i < ids.len() ==> (#[trigger] ids[i] matches ObjectId::Item(id) ==> items.contains_key(
            id,
        ))
}

/// Whether a catalog knows every item that is looked up for a write: the one that is written to,
/// those that `source` reads, directly or through views, and those that are referred to.
pub open spec fn write_known(
    items: Map<GlobalId, ItemView>,
    id: GlobalId,
    reads_column: bool,
    source: Set<GlobalId>,
    depends_on: Seq<GlobalId>,
    role: RoleId,
) -> bool {
    &&& items.contains_key(id)
    &&& reads(
        items,
        seq![ReadFrame { ids: in_order(source), role }],
        write_seen(items, id, reads_column, role),
    ).known
    &&& all_known(items, depends_on)
}

/// Whether a catalog knows every item that is looked up for `plan` when `role` executes it.
pub open spec fn plan_known(
    items: Map<GlobalId, ItemView>,
    plan: Plan,
    depends_on: Seq<GlobalId>,
    role: RoleId,
) -> bool {
    match plan {
        Plan::CreateConnection(_)
        | Plan::CreateSource(_)
        | Plan::CreateTable(_)
        | Plan::CreateView(_)
        | Plan::CreateMaterializedView(_)
        | Plan::CreateIndex(_)
        | Plan::CreateType(_) => all_known(items, depends_on),
        Plan::Select(_) | Plan::Subscribe | Plan::Explain => read_known(items, depends_on, role),
        Plan::ValidateConnection(plan) => items.contains_key(plan.id),
        Plan::ShowCreate(plan) => items.contains_key(plan.id),
        Plan::CopyFrom(plan) => items.contains_key(plan.id),
        Plan::CreateSink(plan) => read_known(items, seq![plan.sink.from], role),
        Plan::DropObjects(plan) => plan.object_type == ObjectType::Role || objects_known(
            items,
            plan.referenced_ids@,
        ),
        Plan::Insert(plan) => write_known(
            items,
            plan.id,
            any_column(plan.returning@),
            plan.values.depends_on@,
            depends_on,
            role,
        ),
        Plan::ReadThenWrite(plan) => write_known(
            items,
            plan.id,
            any_column(plan.assignments@) || any_column(plan.returning@),
            plan.selection.depends_on@,
            depends_on,
            role,
        ),
        Plan::AlterIndexSetOptions(plan)
        | Plan::AlterIndexResetOptions(plan)
        | Plan::AlterSink(plan)
        | Plan::AlterSource(plan)
        | Plan::AlterItemRename(plan)
        | Plan::AlterSecret(plan)
        | Plan::RotateKeys(plan) => items.contains_key(plan.id),
        Plan::AlterOwner(plan) => objects_known(items, seq![plan.id]),
        Plan::GrantPrivileges(plan) | Plan::RevokePrivileges(plan) => objects_known(
            items,
            target_objects(plan.update_privileges@),
        ),
        _ => true,
    }
}

/// Whether the catalog knows all of some items.
fn knows_all(catalog: &SessionCatalog, ids: &Vec<GlobalId>) -> (b: bool)
    ensures
        b == all_known(catalog@.items, ids@),
{
    for i in 0..ids.len()
        invariant
            forall|j: int| 0 <= j < i ==> catalog@.items.contains_key(#[trigger] ids@[j]),
    {
        if catalog.try_get_item(&ids[i]).is_none() {
            assert(!catalog@.items.contains_key(ids@[i as int]));
            return false;
        }
    }
    true
}

/// Whether the catalog knows every item that a read looks up.
fn knows_read(catalog: &SessionCatalog, ids: &Vec<GlobalId>, role_id: RoleId) -> (b: bool)
    ensures
        b == read_known(catalog@.items, ids@, role_id),
{
    let mut seen = Seen::new();
    try_generate_read_privileges_inner(catalog, ids, role_id, &mut seen).is_some()
}

/// Takes down what is required of the item that is written to and need not be required again.
fn see_written(
    catalog: &SessionCatalog,
    id: &GlobalId,
    reads_column: bool,
    role_id: RoleId,
) -> (seen: Seen)
    requires
        catalog@.items.contains_key(*id),
    ensures
        seen@ == write_seen(catalog@.items, *id, reads_column, role_id),
{
    let mut seen = Seen::new();
    seen.insert(catalog.get_item(id).name.qualifiers.schema_id(), role_id);
    if reads_column {
        seen.insert(ObjectId::Item(*id), role_id);
    }
    assert(seen@ =~= write_seen(catalog@.items, *id, reads_column, role_id));
    seen
}

/// Whether the catalog knows every item that is looked up for a write.
fn knows_write(
    catalog: &SessionCatalog,
    id: &GlobalId,
    reads_column: bool,
    source: &MirRelationExpr,
    depends_on: &Vec<GlobalId>,
    role_id: RoleId,
) -> (b: bool)
    ensures
        b == write_known(
            catalog@.items,
            *id,
            reads_column,
            source.depends_on@,
            depends_on@,
            role_id,
        ),
{
    if catalog.try_get_item(id).is_none() {
        return false;
    }
    let mut seen = see_written(catalog, id, reads_column, role_id);
    let ids = source.depends_on.ids();
    try_generate_read_privileges_inner(catalog, ids, role_id, &mut seen).is_some() && knows_all(
        catalog,
        depends_on,
    )
}

/// Whether the catalog knows the items among some objects.
fn knows_objects(catalog: &SessionCatalog, ids: &Vec<ObjectId>) -> (b: bool)
    ensures
        b == objects_known(catalog@.items, ids@),
{
    for i in 0..ids.len()
        invariant
            forall|j: int|
                0 <= j < i ==> (#[trigger] ids@[j] matches ObjectId::Item(id)
                    ==> catalog@.items.contains_key(id)),
    {
        if let ObjectId::Item(id) = &ids[i] {
            if catalog.try_get_item(id).is_none() {
                assert(ids@[i as int] == ObjectId::Item(*id));
                return false;
            }
        }
    }
    true
}

/// Whether the catalog knows every item that is looked up for `plan` when `role_id` executes it.
pub fn is_plan_known(
    catalog: &SessionCatalog,
    plan: &Plan,
    depends_on: &Vec<GlobalId>,
    role_id: RoleId,
) -> (b: bool)
    ensures
        b == plan_known(catalog@.items, *plan, depends_on@, role_id),
{
    match plan {
        Plan::CreateConnection(_)
        | Plan::CreateSource(_)
        | Plan::CreateTable(_)
        | Plan::CreateView(_)
        | Plan::CreateMaterializedView(_)
        | Plan::CreateIndex(_)
        | Plan::CreateType(_) => knows_all(catalog, depends_on),
        Plan::Select(_) | Plan::Subscribe | Plan::Explain => knows_read(
            catalog,
            depends_on,
            role_id,
        ),
        Plan::ValidateConnection(plan) => catalog.try_get_item(&plan.id).is_some(),
        Plan::ShowCreate(plan) => catalog.try_get_item(&plan.id).is_some(),
        Plan::CopyFrom(plan) => catalog.try_get_item(&plan.id).is_some(),
        Plan::CreateSink(plan) => {
            let mut from: Vec<GlobalId> = Vec::new();
            from.push(plan.sink.from);
            assert(from@ =~= seq![plan.sink.from]);
            knows_read(catalog, &from, role_id)
        },
        Plan::DropObjects(plan) => plan.object_type == ObjectType::Role || knows_objects(
            catalog,
            &plan.referenced_ids,
        ),
        Plan::Insert(plan) => knows_write(
            catalog,
            &plan.id,
            contains_any_column(&plan.returning),
            &plan.values,
            depends_on,
            role_id,
        ),
        Plan::ReadThenWrite(plan) => knows_write(
            catalog,
            &plan.id,
            contains_any_column(&plan.assignments) || contains_any_column(&plan.returning),
            &plan.selection,
            depends_on,
            role_id,
        ),
        Plan::AlterIndexSetOptions(plan)
        | Plan::AlterIndexResetOptions(plan)
        | Plan::AlterSink(plan)
        | Plan::AlterSource(plan)
        | Plan::AlterItemRename(plan)
        | Plan::AlterSecret(plan)
        | Plan::RotateKeys(plan) => catalog.try_get_item(&plan.id).is_some(),
        Plan::AlterOwner(plan) => {
            let mut ids: Vec<ObjectId> = Vec::new();
            ids.push(plan.id);
            assert(ids@ =~= seq![plan.id]);
            knows_objects(catalog, &ids)
        },
        Plan::GrantPrivileges(plan) | Plan::RevokePrivileges(plan) => knows_objects(
            catalog,
            &collect_targets(&plan.update_privileges),
        ),
        _ => true,
    }
}

/// A list of one requirement.
fn one(a: Requirement) -> (v: Vec<Requirement>)
    ensures
        v@ == seq![a],
{
    let mut v: Vec<Requirement> = Vec::new();
    v.push(a);
    assert(v@ =~= seq![a]);
    v
}

/// A list of two requirements.
fn two(a: Requirement, b: Requirement) -> (v: Vec<Requirement>)
    ensures
        v@ == seq![a, b],
{
    let mut v: Vec<Requirement> = Vec::new();
    v.push(a);
    v.push(b);
    assert(v@ =~= seq![a, b]);
    v
}

/// That `role` must have `privilege` on the system as a whole.
fn require_system(privilege: Privilege, role: RoleId) -> (r: Requirement)
    ensures
        r == system_requirement(privilege, role),
{
    (SystemObjectId::System, AclMode::only(privilege), role)
}

/// That `role` must have `privilege` on the schema of an item.
fn require_on_schema_of(
    catalog: &SessionCatalog,
    id: &GlobalId,
    privilege: Privilege,
    role_id: RoleId,
) -> (r: Requirement)
    requires
        catalog@.items.contains_key(*id),
    ensures
        r == on_schema(catalog@.items[*id].qualifiers, privilege, role_id),
{
    require(catalog.get_item(id).name.qualifiers.schema_id(), privilege, role_id)
}

/// Adds to `privileges` what referring to `depends_on` takes.
fn with_references(
    privileges: Vec<Requirement>,
    catalog: &SessionCatalog,
    depends_on: &Vec<GlobalId>,
    role_id: RoleId,
) -> (v: Vec<Requirement>)
    requires
        all_known(catalog@.items, depends_on@),
    ensures
        v@ == privileges@ + refer(catalog@.items, depends_on@, role_id),
{
    let mut v = privileges;
    let mut references = generate_item_usage_privileges(catalog, depends_on, role_id);
    v.append(&mut references);
    v
}

/// Adds to `privileges` a requirement, if there is one.
fn with_any(privileges: Vec<Requirement>, required: Option<Requirement>) -> (v: Vec<Requirement>)
    ensures
        v@ == privileges@ + if_any(required),
{
    let mut v = privileges;
    if let Some(required) = required {
        v.push(required);
    }
    assert(v@ =~= privileges@ + if_any(required));
    v
}

/// What running a source or a sink on a cluster takes.
fn require_on_cluster(config: &SourceSinkClusterConfig, role_id: RoleId) -> (r: Requirement)
    ensures
        r == on_cluster(*config, role_id),
{
    match config.cluster_id() {
        Some(id) => require(ObjectId::Cluster(id), Privilege::Create, role_id),
        None => require_system(Privilege::CreateCluster, role_id),
    }
}

/// Generates the privileges required to make a source.
pub fn generate_required_source_privileges(
    catalog: &SessionCatalog,
    name: &QualifiedItemName,
    cluster_config: &SourceSinkClusterConfig,
    depends_on: &Vec<GlobalId>,
    role_id: RoleId,
) -> (privileges: Vec<Requirement>)
    requires
        all_known(catalog@.items, depends_on@),
    ensures
        privileges@ == source_requirements(
            catalog@.items,
            name.qualifiers,
            *cluster_config,
            depends_on@,
            role_id,
        ),
{
    let privileges = two(
        require(name.qualifiers.schema_id(), Privilege::Create, role_id),
        require_on_cluster(cluster_config, role_id),
    );
    with_references(privileges, catalog, depends_on, role_id)
}

/// Picks those of `ids` that the catalog knows.
fn filter_existing(catalog: &SessionCatalog, ids: &Vec<GlobalId>) -> (v: Vec<GlobalId>)
    ensures
        v@ == existing(catalog@.items, ids@),
        all_known(catalog@.items, v@),
{
    let ghost items = catalog@.items;
    let ghost known = |id: GlobalId| items.contains_key(id);
    let mut v: Vec<GlobalId> = Vec::new();
    assert(ids@.take(0) =~= Seq::empty());
    proof {
        reveal(Seq::filter);
    }
    for i in 0..ids.len()
        invariant
            items == catalog@.items,
            known == (|id: GlobalId| items.contains_key(id)),
            v@ == ids@.take(i as int).filter(known),
            all_known(items, v@),
    {
        let id = ids[i];
        proof {
            reveal(Seq::filter);
            assert(ids@.take(i + 1).drop_last() =~= ids@.take(i as int));
            assert(ids@.take(i + 1).last() == id);
        }
        if catalog.try_get_item(&id).is_some() {
            v.push(id);
        }
    }
    assert(ids@.take(ids@.len() as int) =~= ids@);
    v
}

/// Generates the privileges required to make several sources.
fn generate_sources_privileges(
    catalog: &SessionCatalog,
    plans: &Vec<CreateSourcePlans>,
    role_id: RoleId,
) -> (privileges: Vec<Requirement>)
    ensures
        privileges@ == sources_requirements(catalog@.items, plans@, role_id),
{
    let mut privileges: Vec<Requirement> = Vec::new();
    assert(plans@.take(0) =~= Seq::empty());
    for i in 0..plans.len()
        invariant
            privileges@ == sources_requirements(catalog@.items, plans@.take(i as int), role_id),
    {
        assert(plans@.take(i + 1).drop_last() =~= plans@.take(i as int));
        assert(plans@.take(i + 1).last() == plans@[i as int]);
        // Sub-sources depend on not-yet created sources, so those are filtered out.
        let existing_depends_on = filter_existing(catalog, &plans[i].depends_on);
        let plan: &CreateSourcePlan = &plans[i].plan;
        let mut more = generate_required_source_privileges(
            catalog,
            &plan.name,
            &plan.cluster_config,
            &existing_depends_on,
            role_id,
        );
        privileges.append(&mut more);
    }
    assert(plans@.take(plans@.len() as int) =~= plans@);
    privileges
}

/// Generates the privileges required on what an object lies in.
fn generate_container_privileges(
    catalog: &SessionCatalog,
    id: &ObjectId,
    privilege: Privilege,
    role_id: RoleId,
) -> (privileges: Vec<Requirement>)
    requires
        *id matches ObjectId::Item(id) ==> catalog@.items.contains_key(id),
    ensures
        privileges@ == on_container(catalog@.items, *id, privilege, role_id),
{
    match id {
        ObjectId::ClusterReplica(cluster_id, _) => one(
            require(ObjectId::Cluster(*cluster_id), privilege, role_id),
        ),
        ObjectId::Schema(database_spec, _) => match database_spec {
            ResolvedDatabaseSpecifier::Ambient => Vec::new(),
            ResolvedDatabaseSpecifier::Id(database_id) => one(
                require(ObjectId::Database(*database_id), privilege, role_id),
            ),
        },
        ObjectId::Item(item_id) => one(require_on_schema_of(catalog, item_id, privilege, role_id)),
        ObjectId::Cluster(_) | ObjectId::Database(_) | ObjectId::Role(_) => Vec::new(),
    }
}

/// Generates the privileges required on what objects lie in.
fn generate_containers_privileges(
    catalog: &SessionCatalog,
    ids: &Vec<ObjectId>,
    role_id: RoleId,
) -> (privileges: Vec<Requirement>)
    requires
        objects_known(catalog@.items, ids@),
    ensures
        privileges@ == on_containers(catalog@.items, ids@, role_id),
{
    let mut privileges: Vec<Requirement> = Vec::new();
    assert(ids@.take(0) =~= Seq::empty());
    for i in 0..ids.len()
        invariant
            objects_known(catalog@.items, ids@),
            privileges@ == on_containers(catalog@.items, ids@.take(i as int), role_id),
    {
        assert(ids@.take(i + 1).drop_last() =~= ids@.take(i as int));
        assert(ids@.take(i + 1).last() == ids@[i as int]);
        let mut more = generate_container_privileges(catalog, &ids[i], Privilege::Usage, role_id);
        privileges.append(&mut more);
    }
    assert(ids@.take(ids@.len() as int) =~= ids@);
    privileges
}

/// Generates the privileges required to grant or revoke privileges.
fn generate_update_privileges(
    catalog: &SessionCatalog,
    updates: &Vec<UpdatePrivilege>,
    role_id: RoleId,
) -> (privileges: Vec<Requirement>)
    requires
        objects_known(catalog@.items, target_objects(updates@)),
    ensures
        privileges@ == on_containers(catalog@.items, target_objects(updates@), role_id),
{
    let ids = collect_targets(updates);
    generate_containers_privileges(catalog, &ids, role_id)
}

/// Generates the privileges required to alter default privileges.
fn generate_default_privileges(
    objects: &Vec<DefaultPrivilegeObject>,
    role_id: RoleId,
) -> (privileges: Vec<Requirement>)
    ensures
        privileges@ == default_requirements(objects@, role_id),
{
    let mut privileges: Vec<Requirement> = Vec::new();
    assert(objects@.take(0) =~= Seq::empty());
    for i in 0..objects.len()
        invariant
            privileges@ == default_requirements(objects@.take(i as int), role_id),
    {
        assert(objects@.take(i + 1).drop_last() =~= objects@.take(i as int));
        assert(objects@.take(i + 1).last() == objects@[i as int]);
        if let (Some(database_id), Some(_)) = (objects[i].database_id, objects[i].schema_id) {
            privileges.push(require(ObjectId::Database(database_id), Privilege::Usage, role_id));
        }
        assert(privileges@ =~= default_requirements(objects@.take(i + 1), role_id));
    }
    assert(objects@.take(objects@.len() as int) =~= objects@);
    privileges
}

/// Whether one of some expressions refers to a column.
fn contains_any_column(exprs: &Vec<MirScalarExpr>) -> (b: bool)
    ensures
        b == any_column(exprs@),
{
    for i in 0..exprs.len()
        invariant
            forall|j: int| 0 <= j < i ==> !(#[trigger] exprs@[j]).contains_column,
    {
        if exprs[i].contains_column {
            return true;
        }
    }
    false
}

/// Collects the items on which something is required.
fn collect_items(required: &Vec<Requirement>) -> (ids: IdSet<GlobalId>)
    ensures
        ids@ == items_of(required@),
{
    let mut ids: IdSet<GlobalId> = IdSet::new();
    assert(items_of(required@.take(0)) =~= Set::empty());
    for i in 0..required.len()
        invariant
            ids@ == items_of(required@.take(i as int)),
    {
        let ghost front = required@.take(i as int);
        let ghost more = required@.take(i + 1);
        assert(more =~= front.push(required@[i as int]));
        match required[i].0 {
            SystemObjectId::Object(ObjectId::Item(id)) => {
                ids = ids.insert(id);
                assert forall|x: GlobalId| items_of(more).contains(x) == items_of(front).insert(
                    id,
                ).contains(x) by {
                    lemma_items_of_push(front, required@[i as int], x);
                };
                assert(ids@ =~= items_of(more));
            },
            _ => {
                assert forall|x: GlobalId| items_of(more).contains(x) == items_of(front).contains(
                    x,
                ) by {
                    lemma_items_of_push(front, required@[i as int], x);
                };
                assert(ids@ =~= items_of(more));
            },
        }
    }
    assert(required@.take(required@.len() as int) =~= required@);
    ids
}

/// One more requirement is on one more item, if it is on an item.
proof fn lemma_items_of_push(required: Seq<Requirement>, more: Requirement, id: GlobalId)
    ensures
        items_of(required.push(more)).contains(id) == (items_of(required).contains(id) || more.0
            == SystemObjectId::Object(ObjectId::Item(id))),
{
    let all = required.push(more);
    let object = SystemObjectId::Object(ObjectId::Item(id));
    if items_of(required).contains(id) {
        let i = choose|i: int| 0 <= i < required.len() && (#[trigger] required[i]).0 == object;
        assert(all[i].0 == object);
    }
    if more.0 == object {
        assert(all[required.len() as int].0 == object);
    }
    if items_of(all).contains(id) {
        let i = choose|i: int| 0 <= i < all.len() && (#[trigger] all[i]).0 == object;
        if i < required.len() {
            assert(required[i].0 == object);
        }
    }
}

/// Generates the privileges required to write to an item, but for the use of a cluster.
fn generate_write_privileges(
    catalog: &SessionCatalog,
    id: &GlobalId,
    privilege: Privilege,
    reads_column: bool,
    source: &MirRelationExpr,
    depends_on: &Vec<GlobalId>,
    role_id: RoleId,
) -> (privileges: Vec<Requirement>)
    requires
        write_known(
            catalog@.items,
            *id,
            reads_column,
            source.depends_on@,
            depends_on@,
            role_id,
        ),
    ensures
        privileges@ == write_requirements(
            catalog@.items,
            *id,
            privilege,
            reads_column,
            source.depends_on@,
            depends_on@,
            role_id,
        ),
{
    let ghost items = catalog@.items;
    let schema_id = catalog.get_item(id).name.qualifiers.schema_id();
    let mut privileges = two(
        require(schema_id, Privilege::Usage, role_id),
        require(ObjectId::Item(*id), privilege, role_id),
    );
    // Sub-queries are not allowed here. So an expression refers to a column of the item that is
    // written to, or it is constant.
    if reads_column {
        privileges.push(require(ObjectId::Item(*id), Privilege::Select, role_id));
    }
    assert(privileges@ =~= write_target(items, *id, privilege, reads_column, role_id));
    let mut seen = see_written(catalog, id, reads_column, role_id);
    let ids = source.depends_on.ids();
    let mut reads = generate_read_privileges_inner(catalog, ids, role_id, &mut seen);
    privileges.append(&mut reads);
    // Collect additional usage privileges, like those in the returning clause.
    let listed = collect_items(&privileges);
    let mut more = generate_item_usage_privileges_inner(catalog, depends_on, role_id, &listed);
    privileges.append(&mut more);
    privileges
}

/// Generates the privileges required to execute an insertion.
fn generate_insert_privileges(
    catalog: &SessionCatalog,
    plan: &InsertPlan,
    target_cluster_id: Option<ClusterId>,
    depends_on: &Vec<GlobalId>,
    role_id: RoleId,
) -> (privileges: Vec<Requirement>)
    requires
        plan_known(catalog@.items, Plan::Insert(*plan), depends_on@, role_id),
    ensures
        privileges@ == insert_requirements(
            catalog@.items,
            *plan,
            target_cluster_id,
            depends_on@,
            role_id,
        ),
{
    let privileges = generate_write_privileges(
        catalog,
        &plan.id,
        Privilege::Insert,
        contains_any_column(&plan.returning),
        &plan.values,
        depends_on,
        role_id,
    );
    let mut privilege = generate_cluster_usage_privileges(&plan.values, target_cluster_id, role_id);
    if privilege.is_none() && plan.returning.len() > 0 {
        // What is returned may be constant, but the cluster is required for all of it.
        if let Some(cluster_id) = target_cluster_id {
            privilege = Some(require(ObjectId::Cluster(cluster_id), Privilege::Usage, role_id));
        }
    }
    with_any(privileges, privilege)
}

/// Generates the privileges required to execute a read followed by a write.
///
/// The privilege to select is required of everything that is read, whether the user asked for it
/// or the execution of the plan does.
fn generate_read_then_write_privileges(
    catalog: &SessionCatalog,
    plan: &ReadThenWritePlan,
    target_cluster_id: Option<ClusterId>,
    depends_on: &Vec<GlobalId>,
    role_id: RoleId,
) -> (privileges: Vec<Requirement>)
    requires
        plan_known(catalog@.items, Plan::ReadThenWrite(*plan), depends_on@, role_id),
    ensures
        privileges@ == read_then_write_requirements(
            catalog@.items,
            *plan,
            target_cluster_id,
            depends_on@,
            role_id,
        ),
{
    let privilege = match plan.kind {
        MutationKind::Insert => Privilege::Insert,
        MutationKind::Update => Privilege::Update,
        MutationKind::Delete => Privilege::Delete,
    };
    let reads_column = contains_any_column(&plan.assignments) || contains_any_column(
        &plan.returning,
    );
    let privileges = generate_write_privileges(
        catalog,
        &plan.id,
        privilege,
        reads_column,
        &plan.selection,
        depends_on,
        role_id,
    );
    with_any(
        privileges,
        generate_cluster_usage_privileges(&plan.selection, target_cluster_id, role_id),
    )
}

/// Generates the privileges required to make a sink.
fn generate_sink_privileges(
    catalog: &SessionCatalog,
    plan: &CreateSinkPlan,
    role_id: RoleId,
) -> (privileges: Vec<Requirement>)
    requires
        read_known(catalog@.items, seq![plan.sink.from], role_id),
    ensures
        privileges@ == seq![on_schema(plan.name.qualifiers, Privilege::Create, role_id)]
            + read_requirements(catalog@.items, seq![plan.sink.from], role_id) + seq![
            on_cluster(plan.cluster_config, role_id),
        ],
{
    let mut privileges = one(require(plan.name.qualifiers.schema_id(), Privilege::Create, role_id));
    let mut from: Vec<GlobalId> = Vec::new();
    from.push(plan.sink.from);
    assert(from@ =~= seq![plan.sink.from]);
    let mut reads = generate_read_privileges(catalog, &from, role_id);
    privileges.append(&mut reads);
    let mut cluster = one(require_on_cluster(&plan.cluster_config, role_id));
    privileges.append(&mut cluster);
    privileges
}

/// Generates the privileges required to execute a given plan.
///
/// The result is a list of what object a privilege is on, what privilege is required, and who must
/// have it.
pub fn generate_required_privileges(
    catalog: &SessionCatalog,
    plan: &Plan,
    target_cluster_id: Option<ClusterId>,
    depends_on: &Vec<GlobalId>,
    role_id: RoleId,
) -> (privileges: Vec<Requirement>)
    requires
        plan_known(catalog@.items, *plan, depends_on@, role_id),
    ensures
        privileges@ == required_privileges(
            catalog@.items,
            *plan,
            target_cluster_id,
            depends_on@,
            role_id,
        ),
{
    match plan {
        Plan::CreateConnection(CreateConnectionPlan { name })
        | Plan::CreateTable(CreateTablePlan { name })
        | Plan::CreateType(CreateTypePlan { name })
        | Plan::CreateView(CreateViewPlan { name, replace: _ }) => with_references(
            one(require(name.qualifiers.schema_id(), Privilege::Create, role_id)),
            catalog,
            depends_on,
            role_id,
        ),
        Plan::CreateDatabase => one(require_system(Privilege::CreateDb, role_id)),
        Plan::CreateCluster => one(require_system(Privilege::CreateCluster, role_id)),
        Plan::ValidateConnection(ValidateConnectionPlan { id }) => two(
            require_on_schema_of(catalog, id, Privilege::Usage, role_id),
            require(ObjectId::Item(*id), Privilege::Usage, role_id),
        ),
        Plan::CreateSchema(CreateSchemaPlan { database_spec }) => match database_spec {
            ResolvedDatabaseSpecifier::Ambient => Vec::new(),
            ResolvedDatabaseSpecifier::Id(database_id) => one(
                require(ObjectId::Database(*database_id), Privilege::Create, role_id),
            ),
        },
        Plan::CreateRole | Plan::AlterRole | Plan::GrantRole | Plan::RevokeRole => one(
            require_system(Privilege::CreateRole, role_id),
        ),
        Plan::CreateClusterReplica(CreateClusterReplicaPlan { cluster_id }) => one(
            require(ObjectId::Cluster(*cluster_id), Privilege::Create, role_id),
        ),
        Plan::CreateSource(CreateSourcePlan { name, cluster_config }) => {
            generate_required_source_privileges(catalog, name, cluster_config, depends_on, role_id)
        },
        Plan::CreateSources(plans) => generate_sources_privileges(catalog, plans, role_id),
        Plan::CreateSecret(CreateSecretPlan { name }) => one(
            require(name.qualifiers.schema_id(), Privilege::Create, role_id),
        ),
        Plan::CreateSink(plan) => generate_sink_privileges(catalog, plan, role_id),
        Plan::CreateMaterializedView(
            CreateMaterializedViewPlan { name, materialized_view, replace: _ },
        ) => with_references(
            two(
                require(name.qualifiers.schema_id(), Privilege::Create, role_id),
                require(
                    ObjectId::Cluster(materialized_view.cluster_id),
                    Privilege::Create,
                    role_id,
                ),
            ),
            catalog,
            depends_on,
            role_id,
        ),
        Plan::CreateIndex(CreateIndexPlan { name, index }) => with_references(
            two(
                require(name.qualifiers.schema_id(), Privilege::Create, role_id),
                require(ObjectId::Cluster(index.cluster_id), Privilege::Create, role_id),
            ),
            catalog,
            depends_on,
            role_id,
        ),
        Plan::DropObjects(DropObjectsPlan { referenced_ids, object_type }) => {
            if *object_type == ObjectType::Role {
                one(require_system(Privilege::CreateRole, role_id))
            } else {
                generate_containers_privileges(catalog, referenced_ids, role_id)
            }
        },
        Plan::ShowCreate(ShowCreatePlan { id }) => one(
            require_on_schema_of(catalog, id, Privilege::Usage, role_id),
        ),
        Plan::Select(SelectPlan { source }) => with_any(
            generate_read_privileges(catalog, depends_on, role_id),
            generate_cluster_usage_privileges(source, target_cluster_id, role_id),
        ),
        Plan::Subscribe => with_any(
            generate_read_privileges(catalog, depends_on, role_id),
            match target_cluster_id {
                Some(id) => Some(require(ObjectId::Cluster(id), Privilege::Usage, role_id)),
                None => None,
            },
        ),
        Plan::Explain => generate_read_privileges(catalog, depends_on, role_id),
        Plan::CopyFrom(CopyFromPlan { id }) => two(
            require_on_schema_of(catalog, id, Privilege::Usage, role_id),
            require(ObjectId::Item(*id), Privilege::Insert, role_id),
        ),
        Plan::Insert(plan) => generate_insert_privileges(
            catalog,
            plan,
            target_cluster_id,
            depends_on,
            role_id,
        ),
        Plan::ReadThenWrite(plan) => generate_read_then_write_privileges(
            catalog,
            plan,
            target_cluster_id,
            depends_on,
            role_id,
        ),
        Plan::AlterIndexSetOptions(AlterItemPlan { id })
        | Plan::AlterIndexResetOptions(AlterItemPlan { id })
        | Plan::AlterSink(AlterItemPlan { id })
        | Plan::AlterSource(AlterItemPlan { id })
        | Plan::AlterItemRename(AlterItemPlan { id })
        | Plan::AlterSecret(AlterItemPlan { id })
        | Plan::RotateKeys(AlterItemPlan { id }) => one(
            require_on_schema_of(catalog, id, Privilege::Create, role_id),
        ),
        Plan::AlterOwner(AlterOwnerPlan { id, new_owner: _ }) => {
            assert(seq![*id][0] == *id);
            generate_container_privileges(catalog, id, Privilege::Create, role_id)
        },
        Plan::GrantPrivileges(plan) | Plan::RevokePrivileges(plan) => generate_update_privileges(
            catalog,
            &plan.update_privileges,
            role_id,
        ),
        Plan::AlterDefaultPrivileges(plan) => generate_default_privileges(
            &plan.privilege_objects,
            role_id,
        ),
        Plan::AlterClusterRename(_)
        | Plan::AlterClusterReplicaRename(_)
        | Plan::AlterCluster(_)
        | Plan::DiscardTemp
        | Plan::DiscardAll
        | Plan::EmptyQuery
        | Plan::ShowAllVariables
        | Plan::ShowVariable
        | Plan::InspectShard
        | Plan::SetVariable
        | Plan::ResetVariable
        | Plan::SetTransaction
        | Plan::StartTransaction
        | Plan::CommitTransaction
        | Plan::AbortTransaction
        | Plan::CopyRows
        | Plan::AlterNoop
        | Plan::AlterSystemSet
        | Plan::AlterSystemReset
        | Plan::AlterSystemResetAll
        | Plan::Declare
        | Plan::Fetch
        | Plan::Close
        | Plan::Prepare
        | Plan::Execute
        | Plan::Deallocate
        | Plan::Raise
        | Plan::DropOwned(_)
        | Plan::ReassignOwned(_)
        | Plan::SideEffectingFunc(_) => Vec::new(),
    }
}

} // verus!
