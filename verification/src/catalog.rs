//! What the catalog knows of roles and objects.

use crate::acl::{CatalogItemType, MzAclItem, ObjectType};
use crate::id_set::IdSet;
use crate::ids::{
    ClusterId, DatabaseId, GlobalId, ItemQualifiers, ObjectId, QualifiedItemName, ReplicaId,
    ResolvedDatabaseSpecifier, RoleId, SchemaSpecifier, SystemObjectId,
};
use crate::record::{find, lemma_table, table, Record};
use vstd::prelude::*;

verus! {

/// The settings of the server that bear on access control.
#[derive(Clone, Copy, Debug, PartialEq, Eq, Structural)]
pub struct SystemVars {
    /// The switch that turns access control off for everyone.
    pub enable_ld_rbac_checks: bool,
    /// The switch that turns access control on for every session.
    pub enable_rbac_checks: bool,
}

/// A role.
#[derive(Debug)]
pub struct CatalogRole {
    pub id: RoleId,
    pub name: String,
    /// All roles that the role is a member of, be it through other roles.
    pub membership: IdSet<RoleId>,
}

/// A cluster.
#[derive(Debug)]
pub struct CatalogCluster {
    pub id: ClusterId,
    pub name: String,
    pub owner_id: RoleId,
    pub privileges: Vec<MzAclItem>,
}

/// A replica of a cluster.
#[derive(Debug)]
pub struct CatalogClusterReplica {
    pub cluster_id: ClusterId,
    pub replica_id: ReplicaId,
    /// The replica's name, qualified by the cluster's.
    pub qualified_name: String,
    pub owner_id: RoleId,
}

/// A database.
#[derive(Debug)]
pub struct CatalogDatabase {
    pub id: DatabaseId,
    pub name: String,
    pub owner_id: RoleId,
    pub privileges: Vec<MzAclItem>,
}

/// A schema.
#[derive(Debug)]
pub struct CatalogSchema {
    pub database_spec: ResolvedDatabaseSpecifier,
    pub schema_spec: SchemaSpecifier,
    /// The schema's name, qualified by the database's where there is one.
    pub full_name: String,
    pub owner_id: RoleId,
    pub privileges: Vec<MzAclItem>,
}

/// An item in a schema.
#[derive(Debug)]
pub struct CatalogItem {
    pub id: GlobalId,
    pub name: QualifiedItemName,
    /// The item's name, qualified by the names of its schema and database.
    pub full_name: String,
    pub item_type: CatalogItemType,
    pub owner_id: RoleId,
    /// The items that this one directly refers to. The catalog need not know them.
    pub uses: Vec<GlobalId>,
    pub privileges: Vec<MzAclItem>,
}

/// What there is to know of a role.
pub struct RoleView {
    pub name: Seq<char>,
    pub membership: Set<RoleId>,
}

/// What there is to know of any object that has an owner.
pub struct EntryView {
    pub object_type: ObjectType,
    /// The name that messages give it.
    pub name: Seq<char>,
    pub owner: RoleId,
    /// Who was granted what on it, if it is of a kind that has privileges.
    pub acl: Option<Seq<MzAclItem>>,
}

/// What there is to know of an item beside that.
pub struct ItemView {
    pub qualifiers: ItemQualifiers,
    pub item_type: CatalogItemType,
    pub owner: RoleId,
    pub uses: Seq<GlobalId>,
}

/// What the catalog knows.
pub struct CatalogView {
    pub vars: SystemVars,
    pub roles: Map<RoleId, RoleView>,
    pub items: Map<GlobalId, ItemView>,
    /// Clusters, replicas, databases, schemas and items.
    pub entries: Map<ObjectId, EntryView>,
    /// Who was granted what on the system as a whole.
    pub system_acl: Seq<MzAclItem>,
}

impl CatalogView {
    /// Who owns an object. Roles have no owner.
    pub open spec fn owner(self, id: ObjectId) -> Option<RoleId> {
        if self.entries.contains_key(id) {
            Some(self.entries[id].owner)
        } else {
            None
        }
    }

    /// Who was granted what on an object, if it exists and is of a kind that has privileges.
    pub open spec fn acl(self, id: SystemObjectId) -> Option<Seq<MzAclItem>> {
        match id {
            SystemObjectId::System => Some(self.system_acl),
            SystemObjectId::Object(id) => if self.entries.contains_key(id) {
                self.entries[id].acl
            } else {
                None
            },
        }
    }

    /// What holds of every catalog: the items are entries too, roles are not, entries are of the
    /// type that their identifiers say, and all of them but replicas have privileges.
    pub open spec fn wf(self) -> bool {
        &&& self.items.dom().finite()
        &&& forall|id: GlobalId| #[trigger]
            self.items.contains_key(id) == self.entries.contains_key(ObjectId::Item(id))
        &&& forall|id: GlobalId| #[trigger]
            self.items.contains_key(id) ==> self.entries[ObjectId::Item(id)].owner
                == self.items[id].owner && self.entries[ObjectId::Item(id)].object_type
                == self.items[id].item_type.object_type()
        &&& forall|id: RoleId| !#[trigger] self.entries.contains_key(ObjectId::Role(id))
        &&& forall|id: ObjectId| #[trigger]
            self.entries.contains_key(id) ==> is_of_type(id, self.entries[id].object_type) && (
            self.entries[id].acl is None <==> id is ClusterReplica)
    }
}

/// Whether `id` can identify an object of type `object_type`.
pub open spec fn is_of_type(id: ObjectId, object_type: ObjectType) -> bool {
    match object_type {
        ObjectType::Role => id is Role,
        ObjectType::Cluster => id is Cluster,
        ObjectType::ClusterReplica => id is ClusterReplica,
        ObjectType::Database => id is Database,
        ObjectType::Schema => id is Schema,
        ObjectType::Table
        | ObjectType::View
        | ObjectType::MaterializedView
        | ObjectType::Source
        | ObjectType::Sink
        | ObjectType::Index
        | ObjectType::Type
        | ObjectType::Secret
        | ObjectType::Connection
        | ObjectType::Func => id is Item,
    }
}

impl View for CatalogRole {
    type V = RoleView;

    open spec fn view(&self) -> RoleView {
        RoleView { name: self.name@, membership: self.membership@ }
    }
}

impl Record for CatalogRole {
    type Id = RoleId;

    open spec fn key(&self) -> RoleId {
        self.id
    }

    fn has_key(&self, id: &RoleId) -> (b: bool) {
        self.id == *id
    }
}

impl View for CatalogCluster {
    type V = EntryView;

    open spec fn view(&self) -> EntryView {
        EntryView {
            object_type: ObjectType::Cluster,
            name: self.name@,
            owner: self.owner_id,
            acl: Some(self.privileges@),
        }
    }
}

impl Record for CatalogCluster {
    type Id = ClusterId;

    open spec fn key(&self) -> ClusterId {
        self.id
    }

    fn has_key(&self, id: &ClusterId) -> (b: bool) {
        self.id == *id
    }
}

impl View for CatalogClusterReplica {
    type V = EntryView;

    open spec fn view(&self) -> EntryView {
        EntryView {
            object_type: ObjectType::ClusterReplica,
            name: self.qualified_name@,
            owner: self.owner_id,
            acl: None,
        }
    }
}

impl Record for CatalogClusterReplica {
    type Id = (ClusterId, ReplicaId);

    open spec fn key(&self) -> (ClusterId, ReplicaId) {
        (self.cluster_id, self.replica_id)
    }

    fn has_key(&self, id: &(ClusterId, ReplicaId)) -> (b: bool) {
        self.cluster_id == id.0 && self.replica_id == id.1
    }
}

impl View for CatalogDatabase {
    type V = EntryView;

    open spec fn view(&self) -> EntryView {
        EntryView {
            object_type: ObjectType::Database,
            name: self.name@,
            owner: self.owner_id,
            acl: Some(self.privileges@),
        }
    }
}

impl Record for CatalogDatabase {
    type Id = DatabaseId;

    open spec fn key(&self) -> DatabaseId {
        self.id
    }

    fn has_key(&self, id: &DatabaseId) -> (b: bool) {
        self.id == *id
    }
}

impl View for CatalogSchema {
    type V = EntryView;

    open spec fn view(&self) -> EntryView {
        EntryView {
            object_type: ObjectType::Schema,
            name: self.full_name@,
            owner: self.owner_id,
            acl: Some(self.privileges@),
        }
    }
}

impl Record for CatalogSchema {
    type Id = (ResolvedDatabaseSpecifier, SchemaSpecifier);

    open spec fn key(&self) -> (ResolvedDatabaseSpecifier, SchemaSpecifier) {
        (self.database_spec, self.schema_spec)
    }

    fn has_key(&self, id: &(ResolvedDatabaseSpecifier, SchemaSpecifier)) -> (b: bool) {
        self.database_spec == id.0 && self.schema_spec == id.1
    }
}

impl View for CatalogItem {
    type V = (ItemView, EntryView);

    open spec fn view(&self) -> (ItemView, EntryView) {
        (
            ItemView {
                qualifiers: self.name.qualifiers,
                item_type: self.item_type,
                owner: self.owner_id,
                uses: self.uses@,
            },
            EntryView {
                object_type: self.item_type.object_type(),
                name: self.full_name@,
                owner: self.owner_id,
                acl: Some(self.privileges@),
            },
        )
    }
}

impl Record for CatalogItem {
    type Id = GlobalId;

    open spec fn key(&self) -> GlobalId {
        self.id
    }

    fn has_key(&self, id: &GlobalId) -> (b: bool) {
        self.id == *id
    }
}

/// The records that a catalog is made from. Of two records with the same key the later one counts.
#[derive(Debug)]
pub struct CatalogContents {
    pub system_vars: SystemVars,
    pub roles: Vec<CatalogRole>,
    pub clusters: Vec<CatalogCluster>,
    pub cluster_replicas: Vec<CatalogClusterReplica>,
    pub databases: Vec<CatalogDatabase>,
    pub schemas: Vec<CatalogSchema>,
    pub items: Vec<CatalogItem>,
    pub system_privileges: Vec<MzAclItem>,
}

impl CatalogContents {
    /// Whether there is a record of an object.
    pub open spec fn has_entry(self, id: ObjectId) -> bool {
        match id {
            ObjectId::Cluster(id) => table(self.clusters@).contains_key(id),
            ObjectId::ClusterReplica(cluster, replica) => table(
                self.cluster_replicas@,
            ).contains_key((cluster, replica)),
            ObjectId::Database(id) => table(self.databases@).contains_key(id),
            ObjectId::Schema(database, schema) => table(self.schemas@).contains_key(
                (database, schema),
            ),
            ObjectId::Role(_) => false,
            ObjectId::Item(id) => table(self.items@).contains_key(id),
        }
    }

    /// What the record of an object holds.
    pub open spec fn entry(self, id: ObjectId) -> EntryView {
        match id {
            ObjectId::Cluster(id) => table(self.clusters@)[id],
            ObjectId::ClusterReplica(cluster, replica) => table(self.cluster_replicas@)[(
                cluster,
                replica,
            )],
            ObjectId::Database(id) => table(self.databases@)[id],
            ObjectId::Schema(database, schema) => table(self.schemas@)[(database, schema)],
            ObjectId::Role(_) => arbitrary(),
            ObjectId::Item(id) => table(self.items@)[id].1,
        }
    }
}

impl View for CatalogContents {
    type V = CatalogView;

    open spec fn view(&self) -> CatalogView {
        CatalogView {
            vars: self.system_vars,
            roles: table(self.roles@),
            items: Map::new(
                |id: GlobalId| table(self.items@).contains_key(id),
                |id: GlobalId| table(self.items@)[id].0,
            ),
            entries: Map::new(|id: ObjectId| self.has_entry(id), |id: ObjectId| self.entry(id)),
            system_acl: self.system_privileges@,
        }
    }
}

/// A catalog, as a session sees it.
#[derive(Debug)]
pub struct SessionCatalog {
    contents: CatalogContents,
}

impl View for SessionCatalog {
    type V = CatalogView;

    closed spec fn view(&self) -> CatalogView {
        self.contents@
    }
}

/// Of the catalog that records make, what holds of every catalog holds.
proof fn lemma_records_are_wf(contents: CatalogContents)
    ensures
        contents@.wf(),
{
    let view = contents@;
    let items = contents.items@;
    lemma_table(items);
    lemma_table(contents.clusters@);
    lemma_table(contents.cluster_replicas@);
    lemma_table(contents.databases@);
    lemma_table(contents.schemas@);
    assert(view.items.dom() =~= table(items).dom());
    assert forall|id: GlobalId| #[trigger] view.items.contains_key(id) implies view.entries[
        ObjectId::Item(id)].owner == view.items[id].owner && view.entries[
        ObjectId::Item(id)].object_type == view.items[id].item_type.object_type() by {
        assert(table(items).contains_key(id));
        let i = choose|i: int|
            0 <= i < items.len() && (#[trigger] items[i]).key() == id && items[i]@ == table(
                items,
            )[id];
    };
    assert forall|id: ObjectId| #[trigger] view.entries.contains_key(id) implies is_of_type(
        id,
        view.entries[id].object_type,
    ) && (view.entries[id].acl is None <==> id is ClusterReplica) by {
        match id {
            ObjectId::Cluster(k) => {
                assert(table(contents.clusters@).contains_key(k));
            },
            ObjectId::ClusterReplica(k, l) => {
                assert(table(contents.cluster_replicas@).contains_key((k, l)));
            },
            ObjectId::Database(k) => {
                assert(table(contents.databases@).contains_key(k));
            },
            ObjectId::Schema(k, l) => {
                assert(table(contents.schemas@).contains_key((k, l)));
            },
            ObjectId::Role(_) => {},
            ObjectId::Item(k) => {
                assert(table(items).contains_key(k));
            },
        }
    };
}

impl SessionCatalog {
    #[verifier::type_invariant]
    pub open spec fn wf(self) -> bool {
        self@.wf()
    }

    /// Makes a catalog of `contents`.
    pub fn new(contents: CatalogContents) -> (catalog: SessionCatalog)
        ensures
            catalog@ == contents@,
    {
        proof {
            lemma_records_are_wf(contents);
        }
        SessionCatalog { contents }
    }

    /// The settings of the server.
    pub fn system_vars(&self) -> (vars: SystemVars)
        ensures
            vars == self@.vars,
    {
        self.contents.system_vars
    }

    /// Looks a role up.
    pub fn try_get_role(&self, id: &RoleId) -> (role: Option<&CatalogRole>)
        ensures
            match role {
                Some(role) => self@.roles.contains_key(*id) && role@ == self@.roles[*id],
                None => !self@.roles.contains_key(*id),
            },
    {
        find(&self.contents.roles, id)
    }

    /// Looks up a role that exists.
    pub fn get_role(&self, id: &RoleId) -> (role: &CatalogRole)
        requires
            self@.roles.contains_key(*id),
        ensures
            role@ == self@.roles[*id],
    {
        self.try_get_role(id).unwrap()
    }

    /// All roles that a role is a member of.
    pub fn collect_role_membership(&self, id: &RoleId) -> (membership: IdSet<RoleId>)
        requires
            self@.roles.contains_key(*id),
        ensures
            membership@ == self@.roles[*id].membership,
    {
        self.get_role(id).membership.copy()
    }

    /// Looks an item up.
    pub fn try_get_item(&self, id: &GlobalId) -> (item: Option<&CatalogItem>)
        ensures
            match item {
                Some(item) => self@.items.contains_key(*id) && item@.0 == self@.items[*id],
                None => !self@.items.contains_key(*id),
            },
    {
        find(&self.contents.items, id)
    }

    /// Looks up an item that exists.
    pub fn get_item(&self, id: &GlobalId) -> (item: &CatalogItem)
        requires
            self@.items.contains_key(*id),
        ensures
            item@.0 == self@.items[*id],
    {
        self.try_get_item(id).unwrap()
    }

    /// Whether an object that has an owner exists.
    pub fn has_entry(&self, id: &ObjectId) -> (b: bool)
        ensures
            b == self@.entries.contains_key(*id),
    {
        match id {
            ObjectId::Cluster(id) => find(&self.contents.clusters, id).is_some(),
            ObjectId::ClusterReplica(cluster_id, replica_id) => find(
                &self.contents.cluster_replicas,
                &(*cluster_id, *replica_id),
            ).is_some(),
            ObjectId::Database(id) => find(&self.contents.databases, id).is_some(),
            ObjectId::Schema(database_spec, schema_spec) => find(
                &self.contents.schemas,
                &(*database_spec, *schema_spec),
            ).is_some(),
            ObjectId::Role(_) => false,
            ObjectId::Item(id) => find(&self.contents.items, id).is_some(),
        }
    }

    /// The owner of an object that exists, which a role has not.
    pub fn get_owner_id(&self, id: &ObjectId) -> (owner: Option<RoleId>)
        requires
            self@.entries.contains_key(*id) || id is Role,
        ensures
            owner == self@.owner(*id),
    {
        match id {
            ObjectId::Cluster(id) => Some(find(&self.contents.clusters, id).unwrap().owner_id),
            ObjectId::ClusterReplica(cluster_id, replica_id) => Some(
                find(
                    &self.contents.cluster_replicas,
                    &(*cluster_id, *replica_id),
                ).unwrap().owner_id,
            ),
            ObjectId::Database(id) => Some(find(&self.contents.databases, id).unwrap().owner_id),
            ObjectId::Schema(database_spec, schema_spec) => Some(
                find(&self.contents.schemas, &(*database_spec, *schema_spec)).unwrap().owner_id,
            ),
            ObjectId::Role(_) => None,
            ObjectId::Item(id) => Some(find(&self.contents.items, id).unwrap().owner_id),
        }
    }

    /// Who was granted what on an object, if it exists and is of a kind that has privileges.
    pub fn get_privileges(&self, id: &SystemObjectId) -> (privileges: Option<&Vec<MzAclItem>>)
        ensures
            match privileges {
                Some(privileges) => self@.acl(*id) == Some(privileges@),
                None => self@.acl(*id) is None,
            },
    {
        match id {
            SystemObjectId::System => Some(&self.contents.system_privileges),
            SystemObjectId::Object(id) => match id {
                ObjectId::Cluster(id) => match find(&self.contents.clusters, id) {
                    Some(cluster) => Some(&cluster.privileges),
                    None => None,
                },
                ObjectId::Database(id) => match find(&self.contents.databases, id) {
                    Some(database) => Some(&database.privileges),
                    None => None,
                },
                ObjectId::Schema(database_spec, schema_spec) => match find(
                    &self.contents.schemas,
                    &(*database_spec, *schema_spec),
                ) {
                    Some(schema) => Some(&schema.privileges),
                    None => None,
                },
                ObjectId::Item(id) => match find(&self.contents.items, id) {
                    Some(item) => Some(&item.privileges),
                    None => None,
                },
                ObjectId::ClusterReplica(_, _) | ObjectId::Role(_) => {
                    proof {
                        use_type_invariant(self);
                    }
                    None
                },
            },
        }
    }

    /// The type of an object that exists, and the name that messages give it.
    pub fn describe(&self, id: &ObjectId) -> (described: (ObjectType, String))
        requires
            self@.entries.contains_key(*id),
        ensures
            described.0 == self@.entries[*id].object_type,
            described.1@ == self@.entries[*id].name,
    {
        match id {
            ObjectId::Cluster(id) => (
                ObjectType::Cluster,
                find(&self.contents.clusters, id).unwrap().name.clone(),
            ),
            ObjectId::ClusterReplica(cluster_id, replica_id) => (
                ObjectType::ClusterReplica,
                find(
                    &self.contents.cluster_replicas,
                    &(*cluster_id, *replica_id),
                ).unwrap().qualified_name.clone(),
            ),
            ObjectId::Database(id) => (
                ObjectType::Database,
                find(&self.contents.databases, id).unwrap().name.clone(),
            ),
            ObjectId::Schema(database_spec, schema_spec) => (
                ObjectType::Schema,
                find(
                    &self.contents.schemas,
                    &(*database_spec, *schema_spec),
                ).unwrap().full_name.clone(),
            ),
            ObjectId::Item(id) => {
                let item = find(&self.contents.items, id).unwrap();
                (item.item_type.to_object_type(), item.full_name.clone())
            },
            ObjectId::Role(_) => {
                proof {
                    use_type_invariant(self);
                }
                (ObjectType::Role, String::new())
            },
        }
    }
}

} // verus!
