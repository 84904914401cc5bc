//! The privileges that it takes to refer to items and to use clusters.

use crate::acl::{CatalogItemType, Privilege};
use crate::catalog::{ItemView, SessionCatalog};
use crate::id_set::{in_order, IdSet};
use crate::ids::{ClusterId, GlobalId, ObjectId, RoleId};
use crate::plan::MirRelationExpr;
use crate::reads::{require, requirement, Requirement};
use vstd::prelude::*;

verus! {

/// What referring to the item `id` takes.
pub open spec fn item_usage(item: ItemView, id: GlobalId, role: RoleId) -> Seq<Requirement> {
    match item.item_type {
        CatalogItemType::Type | CatalogItemType::Secret | CatalogItemType::Connection => seq![
            requirement(ObjectId::Item(id), Privilege::Usage, role),
        ],
        CatalogItemType::Table
        | CatalogItemType::Source
        | CatalogItemType::Sink
        | CatalogItemType::View
        | CatalogItemType::MaterializedView
        | CatalogItemType::Index
        | CatalogItemType::Func => seq![],
    }
}

/// What referring to the items in `ids` takes, one after the other, but for those in `seen`.
pub open spec fn item_usages(
    items: Map<GlobalId, ItemView>,
    ids: Seq<GlobalId>,
    role: RoleId,
    seen: Set<GlobalId>,
) -> Seq<Requirement>
    decreases ids.len(),
{
    if ids.len() == 0 {
        seq![]
    } else {
        item_usages(items, ids.drop_last(), role, seen) + (if seen.contains(ids.last()) {
            seq![]
        } else {
            item_usage(items[ids.last()], ids.last(), role)
        })
    }
}

/// What referring to a set of items takes, but for those in `seen`.
pub open spec fn usage_requirements(
    items: Map<GlobalId, ItemView>,
    ids: Set<GlobalId>,
    role: RoleId,
    seen: Set<GlobalId>,
) -> Seq<Requirement> {
    item_usages(items, in_order(ids), role, seen)
}

/// Generates the privileges that it takes to refer to the items in `ids`.
pub fn generate_item_usage_privileges(
    catalog: &SessionCatalog,
    ids: &Vec<GlobalId>,
    role_id: RoleId,
) -> (privileges: Vec<Requirement>)
    requires
        forall|i: int| 0 <= i < ids@.len() ==> catalog@.items.contains_key(#[trigger] ids@[i]),
    ensures
        privileges@ == usage_requirements(
            catalog@.items,
            ids@.to_set(),
            role_id,
            Set::<GlobalId>::empty(),
        ),
{
    let seen: IdSet<GlobalId> = IdSet::new();
    generate_item_usage_privileges_inner(catalog, ids, role_id, &seen)
}

/// Generates the privileges that it takes to refer to the items in `ids`, each of them once and in
/// their order, but for those in `seen`.
pub fn generate_item_usage_privileges_inner(
    catalog: &SessionCatalog,
    ids: &Vec<GlobalId>,
    role_id: RoleId,
    seen: &IdSet<GlobalId>,
) -> (privileges: Vec<Requirement>)
    requires
        forall|i: int|
            0 <= i < ids@.len() && !seen@.contains(ids@[i]) ==> catalog@.items.contains_key(
                #[trigger] ids@[i],
            ),
    ensures
        privileges@ == usage_requirements(catalog@.items, ids@.to_set(), role_id, seen@),
{
    let distinct = IdSet::from_ids(ids);
    let list = distinct.ids();
    let ghost items = catalog@.items;
    let mut privileges: Vec<Requirement> = Vec::new();
    assert(list@.take(0) =~= Seq::empty());
    for i in 0..list.len()
        invariant
            items == catalog@.items,
            list@.to_set() == ids@.to_set(),
            forall|k: int|
                0 <= k < ids@.len() && !seen@.contains(ids@[k]) ==> items.contains_key(
                    #[trigger] ids@[k],
                ),
            privileges@ == item_usages(items, list@.take(i as int), role_id, seen@),
    {
        let id = list[i];
        proof {
            assert(list@.take(i + 1).drop_last() =~= list@.take(i as int));
            assert(list@.take(i + 1).last() == id);
            assert(list@.to_set().contains(id));
            assert(ids@.contains(id));
            let k = ids@.index_of(id);
            assert(ids@[k] == id);
        }
        if !seen.contains(&id) {
            let item = catalog.get_item(&id);
            match item.item_type {
                CatalogItemType::Type | CatalogItemType::Secret | CatalogItemType::Connection => {
                    privileges.push(require(ObjectId::Item(id), Privilege::Usage, role_id));
                },
                CatalogItemType::Table
                | CatalogItemType::Source
                | CatalogItemType::Sink
                | CatalogItemType::View
                | CatalogItemType::MaterializedView
                | CatalogItemType::Index
                | CatalogItemType::Func => {},
            }
        }
        assert(privileges@ =~= item_usages(items, list@.take(i + 1), role_id, seen@));
    }
    assert(list@.take(list@.len() as int) =~= list@);
    privileges
}

/// What evaluating an expression on a cluster takes.
pub open spec fn cluster_usage(
    is_const: bool,
    target_cluster: Option<ClusterId>,
    role: RoleId,
) -> Option<Requirement> {
    match target_cluster {
        Some(id) => if is_const {
            None
        } else {
            Some(requirement(ObjectId::Cluster(id), Privilege::Usage, role))
        },
        None => None,
    }
}

/// Generates the privilege that it takes to evaluate `expr` on a cluster, which a constant does
/// not take.
pub fn generate_cluster_usage_privileges(
    expr: &MirRelationExpr,
    target_cluster_id: Option<ClusterId>,
    role_id: RoleId,
) -> (privilege: Option<Requirement>)
    ensures
        privilege == cluster_usage(expr.is_const, target_cluster_id, role_id),
{
    if !expr.is_const {
        if let Some(cluster_id) = target_cluster_id {
            return Some(require(ObjectId::Cluster(cluster_id), Privilege::Usage, role_id));
        }
    }
    None
}

} // verus!
