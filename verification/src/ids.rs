//! Identifiers of the objects that privileges and ownership are about.

use vstd::prelude::*;

verus! {

/// The identifier of an item in a schema: a table, a view, a connection, ...
#[derive(Clone, Copy, Debug, PartialEq, Eq, Structural)]
pub enum GlobalId {
    /// An item that the system defines.
    System(u64),
    /// An item that a user defined.
    User(u64),
    /// An item that lives no longer than the query it belongs to.
    Transient(u64),
    /// The query that is being explained.
    Explain,
}

/// The identifier of a role.
#[derive(Clone, Copy, Debug, PartialEq, Eq, Structural)]
pub enum RoleId {
    /// A role that the system defines.
    System(u64),
    /// A role that a user defined.
    User(u64),
    /// The pseudo-role that every role is a member of.
    Public,
}

impl RoleId {
    /// The `mz_system` role, which owns what the system builds in.
    #[verifier::allow_in_spec]
    pub fn mz_system() -> RoleId
        returns
            RoleId::System(1),
    {
        RoleId::System(1)
    }

    /// Whether this is the `PUBLIC` pseudo-role.
    pub fn is_public(&self) -> (b: bool)
        ensures
            b == (*self == RoleId::Public),
    {
        matches!(self, RoleId::Public)
    }
}

/// The identifier of a cluster.
#[derive(Clone, Copy, Debug, PartialEq, Eq, Structural)]
pub enum ClusterId {
    System(u64),
    User(u64),
}

/// The identifier of a replica, within its cluster.
#[derive(Clone, Copy, Debug, PartialEq, Eq, Structural)]
pub enum ReplicaId {
    System(u64),
    User(u64),
}

/// The identifier of a database.
#[derive(Clone, Copy, Debug, PartialEq, Eq, Structural)]
pub enum DatabaseId {
    System(u64),
    User(u64),
}

/// The identifier of a schema.
#[derive(Clone, Copy, Debug, PartialEq, Eq, Structural)]
pub enum SchemaId {
    System(u64),
    User(u64),
}

/// Where a schema lives: in a database, or outside of all of them.
#[derive(Clone, Copy, Debug, PartialEq, Eq, Structural)]
pub enum ResolvedDatabaseSpecifier {
    /// The schema belongs to no database and is visible from all of them.
    Ambient,
    /// The schema belongs to this database.
    Id(DatabaseId),
}

/// Which schema of a database, or of none, is meant.
#[derive(Clone, Copy, Debug, PartialEq, Eq, Structural)]
pub enum SchemaSpecifier {
    /// The session's schema for temporary items.
    Temporary,
    Id(SchemaId),
}

/// The database and the schema that an item's name lies in.
#[derive(Clone, Copy, Debug, PartialEq, Eq, Structural)]
pub struct ItemQualifiers {
    pub database_spec: ResolvedDatabaseSpecifier,
    pub schema_spec: SchemaSpecifier,
}

impl ItemQualifiers {
    /// The schema as an object.
    pub open spec fn schema(self) -> ObjectId {
        ObjectId::Schema(self.database_spec, self.schema_spec)
    }

    /// The schema as an object.
    pub fn schema_id(&self) -> (id: ObjectId)
        ensures
            id == self.schema(),
    {
        ObjectId::Schema(self.database_spec, self.schema_spec)
    }
}

/// An item's name with the database and the schema that it lies in.
#[derive(Debug)]
pub struct QualifiedItemName {
    pub qualifiers: ItemQualifiers,
    pub item: String,
}

/// The identifier of any object that a plan can name.
#[derive(Clone, Copy, Debug, PartialEq, Eq, Structural)]
pub enum ObjectId {
    Cluster(ClusterId),
    ClusterReplica(ClusterId, ReplicaId),
    Database(DatabaseId),
    Schema(ResolvedDatabaseSpecifier, SchemaSpecifier),
    Role(RoleId),
    Item(GlobalId),
}

/// An object, or the system as a whole.
#[derive(Clone, Copy, Debug, PartialEq, Eq, Structural)]
pub enum SystemObjectId {
    Object(ObjectId),
    System,
}

impl SystemObjectId {
    /// The object, if it is one.
    pub open spec fn object(self) -> Option<ObjectId> {
        match self {
            SystemObjectId::Object(id) => Some(id),
            SystemObjectId::System => None,
        }
    }

    /// The object, if it is one.
    pub fn object_id(&self) -> (id: Option<ObjectId>)
        ensures
            id == self.object(),
    {
        match self {
            SystemObjectId::Object(id) => Some(*id),
            SystemObjectId::System => None,
        }
    }
}

} // verus!
