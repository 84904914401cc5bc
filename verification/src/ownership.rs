//! The objects that one must own to execute a plan.

use crate::acl::ObjectType;
use crate::catalog::{CatalogView, SessionCatalog};
use crate::error::{named, UnauthorizedError, UnauthorizedView};
use crate::id_set::IdSet;
use crate::ids::{ObjectId, RoleId};
use crate::plan::{Plan, UpdatePrivilege};
use vstd::prelude::*;

verus! {

/// The objects on which privileges are granted or revoked.
pub open spec fn target_objects(updates: Seq<UpdatePrivilege>) -> Seq<ObjectId>
    decreases updates.len(),
{
    if updates.len() == 0 {
        seq![]
    } else {
        target_objects(updates.drop_last()) + match updates.last().target_id.object() {
            Some(id) => seq![id],
            None => seq![],
        }
    }
}

/// The objects that one must own to execute `plan`.
pub open spec fn required_ownership(plan: Plan) -> Seq<ObjectId> {
    match plan {
        Plan::CreateIndex(plan) => seq![ObjectId::Item(plan.index.on)],
        Plan::CreateView(plan) => match plan.replace {
            Some(id) => seq![ObjectId::Item(id)],
            None => seq![],
        },
        Plan::CreateMaterializedView(plan) => match plan.replace {
            Some(id) => seq![ObjectId::Item(id)],
            None => seq![],
        },
        Plan::DropObjects(plan) => plan.referenced_ids@,
        Plan::AlterClusterRename(plan) | Plan::AlterCluster(plan) => seq![
            ObjectId::Cluster(plan.id),
        ],
        Plan::AlterClusterReplicaRename(plan) => seq![
            ObjectId::ClusterReplica(plan.cluster_id, plan.replica_id),
        ],
        Plan::AlterIndexSetOptions(plan)
        | Plan::AlterIndexResetOptions(plan)
        | Plan::AlterSink(plan)
        | Plan::AlterSource(plan)
        | Plan::AlterItemRename(plan)
        | Plan::AlterSecret(plan)
        | Plan::RotateKeys(plan) => seq![ObjectId::Item(plan.id)],
        Plan::AlterOwner(plan) => seq![plan.id],
        Plan::GrantPrivileges(plan) | Plan::RevokePrivileges(plan) => target_objects(
            plan.update_privileges@,
        ),
        _ => seq![],
    }
}

/// The list of one object.
fn just(id: ObjectId) -> (ids: Vec<ObjectId>)
    ensures
        ids@ == seq![id],
{
    let mut ids: Vec<ObjectId> = Vec::new();
    ids.push(id);
    assert(ids@ =~= seq![id]);
    ids
}

/// Collects the objects on which privileges are granted or revoked.
pub(crate) fn collect_targets(updates: &Vec<UpdatePrivilege>) -> (ids: Vec<ObjectId>)
    ensures
        ids@ == target_objects(updates@),
{
    let mut ids: Vec<ObjectId> = Vec::new();
    assert(updates@.take(0) =~= Seq::empty());
    for i in 0..updates.len()
        invariant
            ids@ == target_objects(updates@.take(i as int)),
    {
        assert(updates@.take(i + 1).drop_last() =~= updates@.take(i as int));
        assert(updates@.take(i + 1).last() == updates@[i as int]);
        if let Some(id) = updates[i].target_id.object_id() {
            ids.push(id);
        }
        assert(ids@ =~= target_objects(updates@.take(i + 1)));
    }
    assert(updates@.take(updates@.len() as int) =~= updates@);
    ids
}

/// Generates the ownership required to execute a given plan.
pub fn generate_required_ownership(plan: &Plan) -> (ids: Vec<ObjectId>)
    ensures
        ids@ == required_ownership(*plan),
{
    match plan {
        Plan::CreateConnection(_)
        | Plan::CreateDatabase
        | Plan::CreateSchema(_)
        | Plan::CreateRole
        | Plan::CreateCluster
        | Plan::CreateClusterReplica(_)
        | Plan::CreateSource(_)
        | Plan::CreateSources(_)
        | Plan::CreateSecret(_)
        | Plan::CreateSink(_)
        | Plan::CreateTable(_)
        | Plan::CreateType(_)
        | Plan::DiscardTemp
        | Plan::DiscardAll
        | Plan::EmptyQuery
        | Plan::ShowAllVariables
        | Plan::ShowVariable
        | Plan::SetVariable
        | Plan::InspectShard
        | Plan::ResetVariable
        | Plan::SetTransaction
        | Plan::StartTransaction
        | Plan::CommitTransaction
        | Plan::AbortTransaction
        | Plan::Select(_)
        | Plan::Subscribe
        | Plan::ShowCreate(_)
        | Plan::CopyFrom(_)
        | Plan::CopyRows
        | Plan::Explain
        | Plan::Insert(_)
        | Plan::AlterNoop
        | Plan::AlterSystemSet
        | Plan::AlterSystemReset
        | Plan::AlterSystemResetAll
        | Plan::AlterRole
        | Plan::Declare
        | Plan::Fetch
        | Plan::Close
        | Plan::ReadThenWrite(_)
        | Plan::Prepare
        | Plan::Execute
        | Plan::Deallocate
        | Plan::Raise
        | Plan::GrantRole
        | Plan::RevokeRole
        | Plan::DropOwned(_)
        | Plan::ReassignOwned(_)
        | Plan::AlterDefaultPrivileges(_)
        | Plan::ValidateConnection(_)
        | Plan::SideEffectingFunc(_) => Vec::new(),
        Plan::CreateIndex(plan) => just(ObjectId::Item(plan.index.on)),
        Plan::CreateView(plan) => match plan.replace {
            Some(id) => just(ObjectId::Item(id)),
            None => Vec::new(),
        },
        Plan::CreateMaterializedView(plan) => match plan.replace {
            Some(id) => just(ObjectId::Item(id)),
            None => Vec::new(),
        },
        // Ownership of what goes with these objects is not needed.
        Plan::DropObjects(plan) => {
            let ids = plan.referenced_ids.clone();
            assert(ids@ =~= plan.referenced_ids@);
            ids
        },
        Plan::AlterClusterRename(plan) | Plan::AlterCluster(plan) => just(
            ObjectId::Cluster(plan.id),
        ),
        Plan::AlterClusterReplicaRename(plan) => just(
            ObjectId::ClusterReplica(plan.cluster_id, plan.replica_id),
        ),
        Plan::AlterIndexSetOptions(plan)
        | Plan::AlterIndexResetOptions(plan)
        | Plan::AlterSink(plan)
        | Plan::AlterSource(plan)
        | Plan::AlterItemRename(plan)
        | Plan::AlterSecret(plan)
        | Plan::RotateKeys(plan) => just(ObjectId::Item(plan.id)),
        Plan::AlterOwner(plan) => just(plan.id),
        Plan::GrantPrivileges(plan) | Plan::RevokePrivileges(plan) => collect_targets(
            &plan.update_privileges,
        ),
    }
}

/// Whether one of `roles` owns an object. What has no owner, everybody owns.
pub open spec fn owned_by(catalog: CatalogView, id: ObjectId, roles: Set<RoleId>) -> bool {
    match catalog.owner(id) {
        Some(owner) => roles.contains(owner),
        None => true,
    }
}

/// Reports whether any role has ownership over an object.
pub fn check_owner_roles(
    object_id: &ObjectId,
    role_ids: &IdSet<RoleId>,
    catalog: &SessionCatalog,
) -> (owned: bool)
    requires
        catalog@.entries.contains_key(*object_id) || object_id is Role,
    ensures
        owned == owned_by(catalog@, *object_id, role_ids@),
{
    if let Some(owner_id) = catalog.get_owner_id(object_id) {
        role_ids.contains(&owner_id)
    } else {
        true
    }
}

/// Those of `ids` that none of `roles` owns.
pub open spec fn unowned(catalog: CatalogView, ids: Seq<ObjectId>, roles: Set<RoleId>) -> Seq<
    ObjectId,
>
    decreases ids.len(),
{
    if ids.len() == 0 {
        seq![]
    } else {
        unowned(catalog, ids.drop_last(), roles) + (if owned_by(catalog, ids.last(), roles) {
            seq![]
        } else {
            seq![ids.last()]
        })
    }
}

/// What a catalog says of objects in messages.
pub open spec fn descriptions(catalog: CatalogView, ids: Seq<ObjectId>) -> Seq<
    (ObjectType, Seq<char>),
> {
    Seq::new(
        ids.len(),
        |i: int| (catalog.entries[ids[i]].object_type, catalog.entries[ids[i]].name),
    )
}

/// Returns an error that names the objects in `unheld_ownership`, if there are any.
pub fn ownership_err(unheld_ownership: Vec<ObjectId>, catalog: &SessionCatalog) -> (checked: Result<
    (),
    UnauthorizedError,
>)
    requires
        forall|i: int|
            0 <= i < unheld_ownership@.len() ==> catalog@.entries.contains_key(
                #[trigger] unheld_ownership@[i],
            ),
    ensures
        match checked {
            Ok(()) => unheld_ownership@.len() == 0,
            Err(error) => unheld_ownership@.len() > 0 && error@ == (UnauthorizedView::Ownership {
                objects: descriptions(catalog@, unheld_ownership@),
            }),
        },
{
    if unheld_ownership.len() > 0 {
        let mut objects: Vec<(ObjectType, String)> = Vec::new();
        for i in 0..unheld_ownership.len()
            invariant
                forall|j: int|
                    0 <= j < unheld_ownership@.len() ==> catalog@.entries.contains_key(
                        #[trigger] unheld_ownership@[j],
                    ),
                named(objects@) == descriptions(catalog@, unheld_ownership@).take(i as int),
        {
            let ghost before = objects@;
            objects.push(catalog.describe(&unheld_ownership[i]));
            assert(named(objects@) =~= named(before).push(
                (objects@.last().0, objects@.last().1@),
            ));
            assert(named(objects@) =~= descriptions(catalog@, unheld_ownership@).take(i + 1));
        }
        assert(named(objects@) =~= descriptions(catalog@, unheld_ownership@));
        Err(UnauthorizedError::Ownership { objects })
    } else {
        Ok(())
    }
}

} // verus!
