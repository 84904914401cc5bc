//! Privileges, and which of them each type of object has.

use crate::ids::RoleId;
use vstd::prelude::*;

verus! {

/// One privilege.
#[derive(Clone, Copy, Debug, PartialEq, Eq, Structural)]
pub enum Privilege {
    Insert,
    Select,
    Update,
    Delete,
    Usage,
    Create,
    CreateRole,
    CreateDb,
    CreateCluster,
}

/// A set of privileges.
#[derive(Clone, Copy, Debug, PartialEq, Eq, Structural)]
pub struct AclMode {
    pub insert: bool,
    pub select: bool,
    pub update: bool,
    pub delete: bool,
    pub usage: bool,
    pub create: bool,
    pub create_role: bool,
    pub create_db: bool,
    pub create_cluster: bool,
}

impl View for AclMode {
    type V = Set<Privilege>;

    open spec fn view(&self) -> Set<Privilege> {
        Set::new(|p: Privilege| self.has(p))
    }
}

impl AclMode {
    /// Whether `privilege` is in the set.
    pub open spec fn has(self, privilege: Privilege) -> bool {
        match privilege {
            Privilege::Insert => self.insert,
            Privilege::Select => self.select,
            Privilege::Update => self.update,
            Privilege::Delete => self.delete,
            Privilege::Usage => self.usage,
            Privilege::Create => self.create,
            Privilege::CreateRole => self.create_role,
            Privilege::CreateDb => self.create_db,
            Privilege::CreateCluster => self.create_cluster,
        }
    }

    /// The set that holds `privilege` alone.
    pub open spec fn spec_only(privilege: Privilege) -> AclMode {
        AclMode {
            insert: privilege == Privilege::Insert,
            select: privilege == Privilege::Select,
            update: privilege == Privilege::Update,
            delete: privilege == Privilege::Delete,
            usage: privilege == Privilege::Usage,
            create: privilege == Privilege::Create,
            create_role: privilege == Privilege::CreateRole,
            create_db: privilege == Privilege::CreateDb,
            create_cluster: privilege == Privilege::CreateCluster,
        }
    }

    /// The set that holds `privilege` alone.
    #[verifier::when_used_as_spec(spec_only)]
    pub fn only(privilege: Privilege) -> (mode: AclMode)
        ensures
            mode == AclMode::spec_only(privilege),
            mode@ == set![privilege],
    {
        proof {
            lemma_only_holds_one(privilege);
        }
        AclMode {
            insert: privilege == Privilege::Insert,
            select: privilege == Privilege::Select,
            update: privilege == Privilege::Update,
            delete: privilege == Privilege::Delete,
            usage: privilege == Privilege::Usage,
            create: privilege == Privilege::Create,
            create_role: privilege == Privilege::CreateRole,
            create_db: privilege == Privilege::CreateDb,
            create_cluster: privilege == Privilege::CreateCluster,
        }
    }

    /// No privilege at all.
    pub fn empty() -> (mode: AclMode)
        ensures
            mode@ == Set::<Privilege>::empty(),
    {
        let mode = AclMode {
            insert: false,
            select: false,
            update: false,
            delete: false,
            usage: false,
            create: false,
            create_role: false,
            create_db: false,
            create_cluster: false,
        };
        assert forall|p: Privilege| !mode.has(p) by {};
        mode
    }

    /// The privileges of `self` and those of `other`.
    pub fn union(self, other: AclMode) -> (mode: AclMode)
        ensures
            mode@ == self@.union(other@),
    {
        let mode = AclMode {
            insert: self.insert || other.insert,
            select: self.select || other.select,
            update: self.update || other.update,
            delete: self.delete || other.delete,
            usage: self.usage || other.usage,
            create: self.create || other.create,
            create_role: self.create_role || other.create_role,
            create_db: self.create_db || other.create_db,
            create_cluster: self.create_cluster || other.create_cluster,
        };
        assert forall|p: Privilege| mode@.contains(p) == self@.union(other@).contains(p) by {
            assert(mode.has(p) == (self.has(p) || other.has(p)));
        };
        mode
    }

    /// Whether every privilege of `other` is one of `self`.
    pub fn contains(&self, other: AclMode) -> (b: bool)
        ensures
            b == other@.subset_of(self@),
    {
        let b = (!other.insert || self.insert) && (!other.select || self.select) && (!other.update
            || self.update) && (!other.delete || self.delete) && (!other.usage || self.usage) && (
        !other.create || self.create) && (!other.create_role || self.create_role) && (
        !other.create_db || self.create_db) && (!other.create_cluster || self.create_cluster);
        proof {
            if b {
                assert forall|p: Privilege| other@.contains(p) implies self@.contains(p) by {
                    assert(other.has(p) ==> self.has(p));
                };
            } else {
                let p = if other.insert && !self.insert {
                    Privilege::Insert
                } else if other.select && !self.select {
                    Privilege::Select
                } else if other.update && !self.update {
                    Privilege::Update
                } else if other.delete && !self.delete {
                    Privilege::Delete
                } else if other.usage && !self.usage {
                    Privilege::Usage
                } else if other.create && !self.create {
                    Privilege::Create
                } else if other.create_role && !self.create_role {
                    Privilege::CreateRole
                } else if other.create_db && !self.create_db {
                    Privilege::CreateDb
                } else {
                    Privilege::CreateCluster
                };
                assert(other@.contains(p) && !self@.contains(p));
            }
        }
        b
    }
}

/// The set made of one privilege holds that privilege and no other.
pub proof fn lemma_only_holds_one(privilege: Privilege)
    ensures
        AclMode::spec_only(privilege)@ == set![privilege],
{
    let mode = AclMode::spec_only(privilege);
    assert forall|p: Privilege| mode@.contains(p) == set![privilege].contains(p) by {
        assert(mode.has(p) == (p == privilege));
    };
}

/// A type of object.
#[derive(Clone, Copy, Debug, PartialEq, Eq, Structural)]
pub enum ObjectType {
    Table,
    View,
    MaterializedView,
    Source,
    Sink,
    Index,
    Type,
    Role,
    Cluster,
    ClusterReplica,
    Secret,
    Connection,
    Database,
    Schema,
    Func,
}

/// A type of object, or the system as a whole.
#[derive(Clone, Copy, Debug, PartialEq, Eq, Structural)]
pub enum SystemObjectType {
    Object(ObjectType),
    System,
}

/// A type of item in a schema.
#[derive(Clone, Copy, Debug, PartialEq, Eq, Structural)]
pub enum CatalogItemType {
    Table,
    Source,
    Sink,
    View,
    MaterializedView,
    Index,
    Type,
    Func,
    Secret,
    Connection,
}

impl CatalogItemType {
    /// The type of object that an item of this type is.
    pub open spec fn object_type(self) -> ObjectType {
        match self {
            CatalogItemType::Table => ObjectType::Table,
            CatalogItemType::Source => ObjectType::Source,
            CatalogItemType::Sink => ObjectType::Sink,
            CatalogItemType::View => ObjectType::View,
            CatalogItemType::MaterializedView => ObjectType::MaterializedView,
            CatalogItemType::Index => ObjectType::Index,
            CatalogItemType::Type => ObjectType::Type,
            CatalogItemType::Func => ObjectType::Func,
            CatalogItemType::Secret => ObjectType::Secret,
            CatalogItemType::Connection => ObjectType::Connection,
        }
    }

    /// The type of object that an item of this type is.
    pub fn to_object_type(&self) -> (t: ObjectType)
        ensures
            t == self.object_type(),
    {
        match self {
            CatalogItemType::Table => ObjectType::Table,
            CatalogItemType::Source => ObjectType::Source,
            CatalogItemType::Sink => ObjectType::Sink,
            CatalogItemType::View => ObjectType::View,
            CatalogItemType::MaterializedView => ObjectType::MaterializedView,
            CatalogItemType::Index => ObjectType::Index,
            CatalogItemType::Type => ObjectType::Type,
            CatalogItemType::Func => ObjectType::Func,
            CatalogItemType::Secret => ObjectType::Secret,
            CatalogItemType::Connection => ObjectType::Connection,
        }
    }
}

/// That `grantor` granted the privileges of `acl_mode` to `grantee`.
#[derive(Clone, Copy, Debug, PartialEq, Eq, Structural)]
pub struct MzAclItem {
    pub grantee: RoleId,
    pub grantor: RoleId,
    pub acl_mode: AclMode,
}

/// The privileges that there are on an object of type `object_type`.
pub open spec fn privileges_of(object_type: SystemObjectType) -> Set<Privilege> {
    match object_type {
        SystemObjectType::Object(ObjectType::Table) => set![
            Privilege::Insert,
            Privilege::Select,
            Privilege::Update,
            Privilege::Delete,
        ],
        SystemObjectType::Object(ObjectType::View) => set![Privilege::Select],
        SystemObjectType::Object(ObjectType::MaterializedView) => set![Privilege::Select],
        SystemObjectType::Object(ObjectType::Source) => set![Privilege::Select],
        SystemObjectType::Object(ObjectType::Type) => set![Privilege::Usage],
        SystemObjectType::Object(ObjectType::Secret) => set![Privilege::Usage],
        SystemObjectType::Object(ObjectType::Connection) => set![Privilege::Usage],
        SystemObjectType::Object(ObjectType::Cluster) => set![Privilege::Usage, Privilege::Create],
        SystemObjectType::Object(ObjectType::Database) => set![Privilege::Usage, Privilege::Create],
        SystemObjectType::Object(ObjectType::Schema) => set![Privilege::Usage, Privilege::Create],
        SystemObjectType::Object(ObjectType::Sink) => set![],
        SystemObjectType::Object(ObjectType::Index) => set![],
        SystemObjectType::Object(ObjectType::Role) => set![],
        SystemObjectType::Object(ObjectType::ClusterReplica) => set![],
        SystemObjectType::Object(ObjectType::Func) => set![],
        SystemObjectType::System => set![
            Privilege::CreateRole,
            Privilege::CreateDb,
            Privilege::CreateCluster,
        ],
    }
}

/// The privileges that everybody has on a built-in object of type `object_type`.
pub open spec fn builtin_privileges_of(object_type: ObjectType) -> Set<Privilege> {
    match object_type {
        ObjectType::Table | ObjectType::View | ObjectType::MaterializedView | ObjectType::Source
            => set![Privilege::Select],
        ObjectType::Type | ObjectType::Schema => set![Privilege::Usage],
        _ => set![],
    }
}

/// Returns every privilege that there is on an object of type `object_type`.
pub fn all_object_privileges(object_type: SystemObjectType) -> (mode: AclMode)
    ensures
        mode@ == privileges_of(object_type),
{
    match object_type {
        SystemObjectType::Object(ObjectType::Table) => AclMode::only(Privilege::Insert).union(
            AclMode::only(Privilege::Select),
        ).union(AclMode::only(Privilege::Update)).union(AclMode::only(Privilege::Delete)),
        SystemObjectType::Object(ObjectType::View) => AclMode::only(Privilege::Select),
        SystemObjectType::Object(ObjectType::MaterializedView) => AclMode::only(Privilege::Select),
        SystemObjectType::Object(ObjectType::Source) => AclMode::only(Privilege::Select),
        SystemObjectType::Object(ObjectType::Sink) => AclMode::empty(),
        SystemObjectType::Object(ObjectType::Index) => AclMode::empty(),
        SystemObjectType::Object(ObjectType::Type) => AclMode::only(Privilege::Usage),
        SystemObjectType::Object(ObjectType::Role) => AclMode::empty(),
        SystemObjectType::Object(ObjectType::Cluster) => usage_and_create(),
        SystemObjectType::Object(ObjectType::ClusterReplica) => AclMode::empty(),
        SystemObjectType::Object(ObjectType::Secret) => AclMode::only(Privilege::Usage),
        SystemObjectType::Object(ObjectType::Connection) => AclMode::only(Privilege::Usage),
        SystemObjectType::Object(ObjectType::Database) => usage_and_create(),
        SystemObjectType::Object(ObjectType::Schema) => usage_and_create(),
        SystemObjectType::Object(ObjectType::Func) => AclMode::empty(),
        SystemObjectType::System => AclMode::only(Privilege::CreateRole).union(
            AclMode::only(Privilege::CreateDb),
        ).union(AclMode::only(Privilege::CreateCluster)),
    }
}

fn usage_and_create() -> (mode: AclMode)
    ensures
        mode@ == set![Privilege::Usage, Privilege::Create],
{
    AclMode::only(Privilege::Usage).union(AclMode::only(Privilege::Create))
}

/// Returns what the owner of a new object of type `object_type` is granted: every privilege that
/// there is on it, by themselves.
pub fn owner_privilege(object_type: ObjectType, owner_id: RoleId) -> (item: MzAclItem)
    ensures
        item.grantee == owner_id,
        item.grantor == owner_id,
        item.acl_mode@ == privileges_of(SystemObjectType::Object(object_type)),
{
    MzAclItem {
        grantee: owner_id,
        grantor: owner_id,
        acl_mode: all_object_privileges(SystemObjectType::Object(object_type)),
    }
}

/// Returns what everybody is granted by the system on a built-in object of type `object_type`.
pub fn default_builtin_object_privilege(object_type: ObjectType) -> (item: MzAclItem)
    ensures
        item.grantee == RoleId::Public,
        item.grantor == RoleId::mz_system(),
        item.acl_mode@ == builtin_privileges_of(object_type),
{
    let acl_mode = match object_type {
        ObjectType::Table
        | ObjectType::View
        | ObjectType::MaterializedView
        | ObjectType::Source => AclMode::only(Privilege::Select),
        ObjectType::Type | ObjectType::Schema => AclMode::only(Privilege::Usage),
        ObjectType::Sink
        | ObjectType::Index
        | ObjectType::Role
        | ObjectType::Cluster
        | ObjectType::ClusterReplica
        | ObjectType::Secret
        | ObjectType::Connection
        | ObjectType::Database
        | ObjectType::Func => AclMode::empty(),
    };
    MzAclItem { grantee: RoleId::Public, grantor: RoleId::mz_system(), acl_mode }
}

} // verus!
