//! What a catalog says, in terms of the records that it is made from.

use crate::catalog::{CatalogContents, CatalogView};
use crate::ids::{GlobalId, ObjectId, RoleId, SystemObjectId};
use crate::record::{lemma_table, table, Record};
use vstd::prelude::*;

verus! {

/// Whether no record after the `i`th has the same key.
pub open spec fn is_last_of_key<R: Record>(records: Seq<R>, i: int) -> bool {
    &&& 0 <= i < records.len()
    &&& forall|j: int| i < j < records.len() ==> (#[trigger] records[j]).key() != records[i].key()
}

/// Of several records with one key the last counts, and there is nothing under a key without a
/// record.
pub proof fn law_last_record_counts<R: Record>(records: Seq<R>, i: int, id: R::Id)
    ensures
        is_last_of_key(records, i) ==> table(records).contains_key(records[i].key()) && table(
            records,
        )[records[i].key()] == records[i]@,
        table(records).contains_key(id) <==> exists|k: int|
            0 <= k < records.len() && (#[trigger] records[k]).key() == id,
    decreases records.len(),
{
    lemma_table(records);
    if records.len() > 0 {
        let front = records.drop_last();
        let last = records.len() - 1;
        if is_last_of_key(records, i) && i < last {
            assert forall|j: int| i < j < front.len() implies (#[trigger] front[j]).key()
                != front[i].key() by {
                assert(front[j] == records[j] && front[i] == records[i]);
            };
            law_last_record_counts(front, i, id);
            assert(front[i] == records[i]);
            assert(records[last].key() != records[i].key());
        }
    }
}

/// The catalog knows of a role what its last record says, and knows no role without a record.
pub proof fn law_roles_of_records(contents: CatalogContents, i: int, id: RoleId)
    ensures
        0 <= i < contents.roles@.len() && (forall|j: int|
            i < j < contents.roles@.len() ==> (#[trigger] contents.roles@[j]).id
                != contents.roles@[i].id) ==> {
            let role = contents.roles@[i];
            &&& contents@.roles.contains_key(role.id)
            &&& contents@.roles[role.id].name == role.name@
            &&& contents@.roles[role.id].membership == role.membership@
        },
        contents@.roles.contains_key(id) <==> exists|k: int|
            0 <= k < contents.roles@.len() && (#[trigger] contents.roles@[k]).id == id,
        contents@.vars == contents.system_vars,
        contents@.system_acl == contents.system_privileges@,
{
    law_last_record_counts(contents.roles@, i, id);
    if contents@.roles.contains_key(id) {
        let k = choose|k: int|
            0 <= k < contents.roles@.len() && (#[trigger] contents.roles@[k]).key() == id;
        assert(contents.roles@[k].id == id);
    }
    if exists|k: int| 0 <= k < contents.roles@.len() && (#[trigger] contents.roles@[k]).id == id {
        let k = choose|k: int|
            0 <= k < contents.roles@.len() && (#[trigger] contents.roles@[k]).id == id;
        assert(contents.roles@[k].key() == id);
    }
    if 0 <= i < contents.roles@.len() && (forall|j: int|
        i < j < contents.roles@.len() ==> (#[trigger] contents.roles@[j]).id
            != contents.roles@[i].id) {
        assert(is_last_of_key(contents.roles@, i));
    }
}

/// The catalog knows of a cluster what its last record says.
pub proof fn law_clusters_of_records(contents: CatalogContents, i: int)
    requires
        0 <= i < contents.clusters@.len(),
        forall|j: int|
            i < j < contents.clusters@.len() ==> (#[trigger] contents.clusters@[j]).id
                != contents.clusters@[i].id,
    ensures
        ({
            let cluster = contents.clusters@[i];
            let id = ObjectId::Cluster(cluster.id);
            &&& contents@.entries.contains_key(id)
            &&& contents@.entries[id].name == cluster.name@
            &&& contents@.entries[id].owner == cluster.owner_id
            &&& contents@.entries[id].acl == Some(cluster.privileges@)
        }),
{
    assert(is_last_of_key(contents.clusters@, i));
    law_last_record_counts(contents.clusters@, i, contents.clusters@[i].id);
}

/// The catalog knows of a replica what its last record says. Replicas have no privileges.
pub proof fn law_replicas_of_records(contents: CatalogContents, i: int)
    requires
        0 <= i < contents.cluster_replicas@.len(),
        forall|j: int|
            i < j < contents.cluster_replicas@.len()
                ==> (#[trigger] contents.cluster_replicas@[j]).cluster_id
                != contents.cluster_replicas@[i].cluster_id
                || contents.cluster_replicas@[j].replica_id
                != contents.cluster_replicas@[i].replica_id,
    ensures
        ({
            let replica = contents.cluster_replicas@[i];
            let id = ObjectId::ClusterReplica(replica.cluster_id, replica.replica_id);
            &&& contents@.entries.contains_key(id)
            &&& contents@.entries[id].name == replica.qualified_name@
            &&& contents@.entries[id].owner == replica.owner_id
            &&& contents@.entries[id].acl is None
        }),
{
    let replica = contents.cluster_replicas@[i];
    assert(is_last_of_key(contents.cluster_replicas@, i));
    law_last_record_counts(
        contents.cluster_replicas@,
        i,
        (replica.cluster_id, replica.replica_id),
    );
}

/// The catalog knows of a database what its last record says.
pub proof fn law_databases_of_records(contents: CatalogContents, i: int)
    requires
        0 <= i < contents.databases@.len(),
        forall|j: int|
            i < j < contents.databases@.len() ==> (#[trigger] contents.databases@[j]).id
                != contents.databases@[i].id,
    ensures
        ({
            let database = contents.databases@[i];
            let id = ObjectId::Database(database.id);
            &&& contents@.entries.contains_key(id)
            &&& contents@.entries[id].name == database.name@
            &&& contents@.entries[id].owner == database.owner_id
            &&& contents@.entries[id].acl == Some(database.privileges@)
        }),
{
    assert(is_last_of_key(contents.databases@, i));
    law_last_record_counts(contents.databases@, i, contents.databases@[i].id);
}

/// The catalog knows of a schema what its last record says.
pub proof fn law_schemas_of_records(contents: CatalogContents, i: int)
    requires
        0 <= i < contents.schemas@.len(),
        forall|j: int|
            i < j < contents.schemas@.len() ==> (#[trigger] contents.schemas@[j]).database_spec
                != contents.schemas@[i].database_spec || contents.schemas@[j].schema_spec
                != contents.schemas@[i].schema_spec,
    ensures
        ({
            let schema = contents.schemas@[i];
            let id = ObjectId::Schema(schema.database_spec, schema.schema_spec);
            &&& contents@.entries.contains_key(id)
            &&& contents@.entries[id].name == schema.full_name@
            &&& contents@.entries[id].owner == schema.owner_id
            &&& contents@.entries[id].acl == Some(schema.privileges@)
        }),
{
    let schema = contents.schemas@[i];
    assert(is_last_of_key(contents.schemas@, i));
    law_last_record_counts(contents.schemas@, i, (schema.database_spec, schema.schema_spec));
}

/// The catalog knows of an item what its last record says, and knows no item without a record.
pub proof fn law_items_of_records(contents: CatalogContents, i: int, id: GlobalId)
    ensures
        0 <= i < contents.items@.len() && (forall|j: int|
            i < j < contents.items@.len() ==> (#[trigger] contents.items@[j]).id
                != contents.items@[i].id) ==> {
            let item = contents.items@[i];
            let object = ObjectId::Item(item.id);
            &&& contents@.items.contains_key(item.id)
            &&& contents@.items[item.id].qualifiers == item.name.qualifiers
            &&& contents@.items[item.id].item_type == item.item_type
            &&& contents@.items[item.id].owner == item.owner_id
            &&& contents@.items[item.id].uses == item.uses@
            &&& contents@.entries.contains_key(object)
            &&& contents@.entries[object].object_type == item.item_type.object_type()
            &&& contents@.entries[object].name == item.full_name@
            &&& contents@.entries[object].owner == item.owner_id
            &&& contents@.entries[object].acl == Some(item.privileges@)
        },
        contents@.items.contains_key(id) <==> exists|k: int|
            0 <= k < contents.items@.len() && (#[trigger] contents.items@[k]).id == id,
{
    law_last_record_counts(contents.items@, i, id);
    if contents@.items.contains_key(id) {
        let k = choose|k: int|
            0 <= k < contents.items@.len() && (#[trigger] contents.items@[k]).key() == id;
        assert(contents.items@[k].id == id);
    }
    if exists|k: int| 0 <= k < contents.items@.len() && (#[trigger] contents.items@[k]).id == id {
        let k = choose|k: int|
            0 <= k < contents.items@.len() && (#[trigger] contents.items@[k]).id == id;
        assert(contents.items@[k].key() == id);
    }
    if 0 <= i < contents.items@.len() && (forall|j: int|
        i < j < contents.items@.len() ==> (#[trigger] contents.items@[j]).id
            != contents.items@[i].id) {
        assert(is_last_of_key(contents.items@, i));
        assert(contents.items@[i].key() == contents.items@[i].id);
    }
}

/// The catalog knows no object without a record, and roles are no objects that have owners or
/// privileges.
pub proof fn law_no_objects_without_records(contents: CatalogContents, id: ObjectId)
    requires
        contents@.entries.contains_key(id),
    ensures
        match id {
            ObjectId::Cluster(x) => exists|k: int|
                0 <= k < contents.clusters@.len() && (#[trigger] contents.clusters@[k]).id == x,
            ObjectId::ClusterReplica(x, y) => exists|k: int|
                0 <= k < contents.cluster_replicas@.len()
                    && (#[trigger] contents.cluster_replicas@[k]).cluster_id == x
                    && contents.cluster_replicas@[k].replica_id == y,
            ObjectId::Database(x) => exists|k: int|
                0 <= k < contents.databases@.len() && (#[trigger] contents.databases@[k]).id == x,
            ObjectId::Schema(x, y) => exists|k: int|
                0 <= k < contents.schemas@.len() && (#[trigger] contents.schemas@[k]).database_spec
                    == x && contents.schemas@[k].schema_spec == y,
            ObjectId::Item(x) => exists|k: int|
                0 <= k < contents.items@.len() && (#[trigger] contents.items@[k]).id == x,
            ObjectId::Role(_) => false,
        },
{
    match id {
        ObjectId::Cluster(x) => {
            law_last_record_counts(contents.clusters@, 0, x);
            let k = choose|k: int|
                0 <= k < contents.clusters@.len() && (#[trigger] contents.clusters@[k]).key() == x;
            assert(contents.clusters@[k].id == x);
        },
        ObjectId::ClusterReplica(x, y) => {
            law_last_record_counts(contents.cluster_replicas@, 0, (x, y));
            let k = choose|k: int|
                0 <= k < contents.cluster_replicas@.len()
                    && (#[trigger] contents.cluster_replicas@[k]).key() == (x, y);
            assert(contents.cluster_replicas@[k].cluster_id == x);
        },
        ObjectId::Database(x) => {
            law_last_record_counts(contents.databases@, 0, x);
            let k = choose|k: int|
                0 <= k < contents.databases@.len() && (#[trigger] contents.databases@[k]).key()
                    == x;
            assert(contents.databases@[k].id == x);
        },
        ObjectId::Schema(x, y) => {
            law_last_record_counts(contents.schemas@, 0, (x, y));
            let k = choose|k: int|
                0 <= k < contents.schemas@.len() && (#[trigger] contents.schemas@[k]).key() == (
                x,
                y,
                );
            assert(contents.schemas@[k].database_spec == x);
        },
        ObjectId::Item(x) => {
            law_items_of_records(contents, 0, x);
            law_last_record_counts(contents.items@, 0, x);
            let k = choose|k: int|
                0 <= k < contents.items@.len() && (#[trigger] contents.items@[k]).key() == x;
            assert(contents.items@[k].id == x);
        },
        ObjectId::Role(_) => {},
    }
}

/// Who owns an object, and who was granted what on it, is what its entry says, and what was granted
/// on the system is what the catalog says of that.
pub proof fn law_owners_and_grants(catalog: CatalogView, id: ObjectId)
    ensures
        catalog.entries.contains_key(id) ==> catalog.owner(id) == Some(catalog.entries[id].owner)
            && catalog.acl(SystemObjectId::Object(id)) == catalog.entries[id].acl,
        !catalog.entries.contains_key(id) ==> catalog.owner(id) is None && catalog.acl(
            SystemObjectId::Object(id),
        ) is None,
        catalog.acl(SystemObjectId::System) == Some(catalog.system_acl),
{
}

} // verus!
