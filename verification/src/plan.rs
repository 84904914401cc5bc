//! Plans, as far as it depends on them who may execute them.

use crate::acl::ObjectType;
use crate::id_set::IdSet;
use crate::ids::{
    ClusterId, DatabaseId, GlobalId, ObjectId, QualifiedItemName, ReplicaId,
    ResolvedDatabaseSpecifier, RoleId, SchemaId, SystemObjectId,
};
use vstd::prelude::*;

verus! {

/// An expression that yields a relation.
#[derive(Debug)]
pub struct MirRelationExpr {
    /// The items that the expression reads.
    pub depends_on: IdSet<GlobalId>,
    /// Whether the expression is a constant, as it stands.
    pub is_const: bool,
}

/// An expression that yields a value for a row.
#[derive(Clone, Copy, Debug, PartialEq, Eq, Structural)]
pub struct MirScalarExpr {
    /// Whether the expression refers to a column of the row.
    pub contains_column: bool,
}

/// The cluster that a source or a sink runs on.
#[derive(Clone, Copy, Debug, PartialEq, Eq, Structural)]
pub enum SourceSinkClusterConfig {
    /// One that exists.
    Existing { id: ClusterId },
    /// One that is made for it.
    Linked,
    /// The user said nothing of it.
    Undefined,
}

impl SourceSinkClusterConfig {
    /// The cluster, if it exists.
    pub open spec fn cluster(self) -> Option<ClusterId> {
        match self {
            SourceSinkClusterConfig::Existing { id } => Some(id),
            SourceSinkClusterConfig::Linked | SourceSinkClusterConfig::Undefined => None,
        }
    }

    /// The cluster, if it exists.
    pub fn cluster_id(&self) -> (id: Option<ClusterId>)
        ensures
            id == self.cluster(),
    {
        match self {
            SourceSinkClusterConfig::Existing { id } => Some(*id),
            SourceSinkClusterConfig::Linked | SourceSinkClusterConfig::Undefined => None,
        }
    }
}

#[derive(Debug)]
pub struct CreateConnectionPlan {
    pub name: QualifiedItemName,
}

#[derive(Debug)]
pub struct ValidateConnectionPlan {
    pub id: GlobalId,
}

#[derive(Debug)]
pub struct CreateSchemaPlan {
    pub database_spec: ResolvedDatabaseSpecifier,
}

#[derive(Debug)]
pub struct CreateClusterReplicaPlan {
    pub cluster_id: ClusterId,
}

#[derive(Debug)]
pub struct CreateSourcePlan {
    pub name: QualifiedItemName,
    pub cluster_config: SourceSinkClusterConfig,
}

/// One of several sources that are made together.
#[derive(Debug)]
pub struct CreateSourcePlans {
    pub plan: CreateSourcePlan,
    /// The items that the source refers to, among them sources that are yet to be made.
    pub depends_on: Vec<GlobalId>,
}

#[derive(Debug)]
pub struct CreateSecretPlan {
    pub name: QualifiedItemName,
}

#[derive(Debug)]
pub struct Sink {
    /// The item whose contents the sink writes.
    pub from: GlobalId,
}

#[derive(Debug)]
pub struct CreateSinkPlan {
    pub name: QualifiedItemName,
    pub sink: Sink,
    pub cluster_config: SourceSinkClusterConfig,
}

#[derive(Debug)]
pub struct CreateTablePlan {
    pub name: QualifiedItemName,
}

#[derive(Debug)]
pub struct CreateViewPlan {
    pub name: QualifiedItemName,
    /// The view that the new one replaces.
    pub replace: Option<GlobalId>,
}

#[derive(Debug)]
pub struct MaterializedView {
    pub cluster_id: ClusterId,
}

#[derive(Debug)]
pub struct CreateMaterializedViewPlan {
    pub name: QualifiedItemName,
    pub materialized_view: MaterializedView,
    /// The materialized view that the new one replaces.
    pub replace: Option<GlobalId>,
}

#[derive(Debug)]
pub struct Index {
    /// The item that is indexed.
    pub on: GlobalId,
    pub cluster_id: ClusterId,
}

#[derive(Debug)]
pub struct CreateIndexPlan {
    pub name: QualifiedItemName,
    pub index: Index,
}

#[derive(Debug)]
pub struct CreateTypePlan {
    pub name: QualifiedItemName,
}

#[derive(Debug)]
pub struct DropObjectsPlan {
    /// The objects that the statement names, without those that go with them.
    pub referenced_ids: Vec<ObjectId>,
    pub object_type: ObjectType,
}

#[derive(Debug)]
pub struct ShowCreatePlan {
    pub id: GlobalId,
}

#[derive(Debug)]
pub struct SelectPlan {
    pub source: MirRelationExpr,
}

#[derive(Debug)]
pub struct CopyFromPlan {
    pub id: GlobalId,
}

#[derive(Debug)]
pub struct InsertPlan {
    pub id: GlobalId,
    pub values: MirRelationExpr,
    pub returning: Vec<MirScalarExpr>,
}

/// What a plan that reads before it writes does with what it read.
#[derive(Clone, Copy, Debug, PartialEq, Eq, Structural)]
pub enum MutationKind {
    Insert,
    Update,
    Delete,
}

#[derive(Debug)]
pub struct ReadThenWritePlan {
    pub id: GlobalId,
    pub selection: MirRelationExpr,
    /// The expressions that are assigned to columns.
    pub assignments: Vec<MirScalarExpr>,
    pub kind: MutationKind,
    pub returning: Vec<MirScalarExpr>,
}

/// A plan that alters the item `id`.
#[derive(Debug)]
pub struct AlterItemPlan {
    pub id: GlobalId,
}

/// A plan that alters the cluster `id`.
#[derive(Debug)]
pub struct AlterClusterPlan {
    pub id: ClusterId,
}

#[derive(Debug)]
pub struct AlterClusterReplicaRenamePlan {
    pub cluster_id: ClusterId,
    pub replica_id: ReplicaId,
}

#[derive(Debug)]
pub struct AlterOwnerPlan {
    pub id: ObjectId,
    pub new_owner: RoleId,
}

/// Privileges on `target_id` that are granted or revoked.
#[derive(Clone, Copy, Debug, PartialEq, Eq, Structural)]
pub struct UpdatePrivilege {
    pub target_id: SystemObjectId,
}

/// A plan that grants privileges, or revokes them.
#[derive(Debug)]
pub struct UpdatePrivilegesPlan {
    pub update_privileges: Vec<UpdatePrivilege>,
}

/// Objects that default privileges are for: those that `role_id` makes, in a database or a schema
/// where one is given.
#[derive(Clone, Copy, Debug, PartialEq, Eq, Structural)]
pub struct DefaultPrivilegeObject {
    pub role_id: RoleId,
    pub database_id: Option<DatabaseId>,
    pub schema_id: Option<SchemaId>,
}

#[derive(Debug)]
pub struct AlterDefaultPrivilegesPlan {
    pub privilege_objects: Vec<DefaultPrivilegeObject>,
}

#[derive(Debug)]
pub struct DropOwnedPlan {
    pub role_ids: Vec<RoleId>,
}

#[derive(Debug)]
pub struct ReassignOwnedPlan {
    pub old_roles: Vec<RoleId>,
    pub new_role: RoleId,
}

/// A function that is called for what it does.
#[derive(Debug)]
pub enum SideEffectingFunc {
    /// Cancels what a connection is executing.
    PgCancelBackend { connection_id: u32 },
}

/// A plan for a statement, with what it depends on who may execute it.
#[derive(Debug)]
pub enum Plan {
    CreateConnection(CreateConnectionPlan),
    CreateDatabase,
    CreateSchema(CreateSchemaPlan),
    CreateRole,
    CreateCluster,
    CreateClusterReplica(CreateClusterReplicaPlan),
    CreateSource(CreateSourcePlan),
    CreateSources(Vec<CreateSourcePlans>),
    CreateSecret(CreateSecretPlan),
    CreateSink(CreateSinkPlan),
    CreateTable(CreateTablePlan),
    CreateView(CreateViewPlan),
    CreateMaterializedView(CreateMaterializedViewPlan),
    CreateIndex(CreateIndexPlan),
    CreateType(CreateTypePlan),
    DiscardTemp,
    DiscardAll,
    DropObjects(DropObjectsPlan),
    DropOwned(DropOwnedPlan),
    EmptyQuery,
    ShowAllVariables,
    ShowCreate(ShowCreatePlan),
    ShowVariable,
    InspectShard,
    SetVariable,
    ResetVariable,
    SetTransaction,
    StartTransaction,
    CommitTransaction,
    AbortTransaction,
    Select(SelectPlan),
    Subscribe,
    CopyFrom(CopyFromPlan),
    CopyRows,
    Explain,
    Insert(InsertPlan),
    AlterCluster(AlterClusterPlan),
    AlterClusterRename(AlterClusterPlan),
    AlterClusterReplicaRename(AlterClusterReplicaRenamePlan),
    AlterNoop,
    AlterIndexSetOptions(AlterItemPlan),
    AlterIndexResetOptions(AlterItemPlan),
    AlterSink(AlterItemPlan),
    AlterSource(AlterItemPlan),
    AlterItemRename(AlterItemPlan),
    AlterSecret(AlterItemPlan),
    AlterSystemSet,
    AlterSystemReset,
    AlterSystemResetAll,
    AlterRole,
    AlterOwner(AlterOwnerPlan),
    Declare,
    Fetch,
    Close,
    ReadThenWrite(ReadThenWritePlan),
    Prepare,
    Execute,
    Deallocate,
    Raise,
    RotateKeys(AlterItemPlan),
    GrantRole,
    RevokeRole,
    GrantPrivileges(UpdatePrivilegesPlan),
    RevokePrivileges(UpdatePrivilegesPlan),
    AlterDefaultPrivileges(AlterDefaultPrivilegesPlan),
    ReassignOwned(ReassignOwnedPlan),
    SideEffectingFunc(SideEffectingFunc),
    ValidateConnection(ValidateConnectionPlan),
}

} // verus!
