//! What holds of the privileges that plans take.

use crate::acl::{CatalogItemType, Privilege};
use crate::catalog::ItemView;
use crate::id_set::{in_order, lemma_in_order};
use crate::ids::{ClusterId, GlobalId, ObjectId, RoleId, SystemObjectId};
use crate::ownership::target_objects;
use crate::plan::{CreateSourcePlans, DefaultPrivilegeObject, Plan};
use crate::privileges::{
    any_column, default_requirements, existing, items_of, mutation_privilege, on_containers,
    required_privileges, source_requirements, sources_requirements, write_and_read,
    write_requirements, write_seen, write_target,
};
use crate::read_laws::{
    each_once, is_for, is_read, law_read_requirements, law_readers, law_reads_take_all,
    law_reads_take_no_more, owns_view, subject,
};
use crate::reads::{read_requirements, reads, requirement, ReadFrame, Requirement};
use crate::usage::{item_usage, item_usages, usage_requirements};
use vstd::prelude::*;

verus! {

/// Whether an object is of a kind that has privileges.
pub open spec fn has_privileges(id: SystemObjectId) -> bool {
    match id {
        SystemObjectId::Object(ObjectId::ClusterReplica(_, _)) => false,
        SystemObjectId::Object(ObjectId::Role(_)) => false,
        _ => true,
    }
}

/// Whether something is required on what has privileges, of `role` or of the owner of a view.
spec fn fits(items: Map<GlobalId, ItemView>, role: RoleId, required: Requirement) -> bool {
    has_privileges(required.0) && (required.2 == role || owns_view(items, required.2))
}

/// Whether all of some requirements fit.
spec fn all_fit(items: Map<GlobalId, ItemView>, role: RoleId, required: Seq<Requirement>) -> bool {
    forall|i: int| 0 <= i < required.len() ==> fits(items, role, #[trigger] required[i])
}

/// What fits still fits when put together.
proof fn lemma_fit_together(
    items: Map<GlobalId, ItemView>,
    role: RoleId,
    a: Seq<Requirement>,
    b: Seq<Requirement>,
)
    requires
        all_fit(items, role, a),
        all_fit(items, role, b),
    ensures
        all_fit(items, role, a + b),
{
    assert forall|i: int| 0 <= i < (a + b).len() implies fits(
        items,
        role,
        #[trigger] (a + b)[i],
    ) by {
        if i < a.len() {
            assert((a + b)[i] == a[i]);
        } else {
            assert((a + b)[i] == b[i - a.len()]);
        }
    };
}

/// What referring to items takes fits.
proof fn lemma_usages_fit(
    items: Map<GlobalId, ItemView>,
    ids: Seq<GlobalId>,
    role: RoleId,
    seen: Set<GlobalId>,
)
    ensures
        all_fit(items, role, item_usages(items, ids, role, seen)),
    decreases ids.len(),
{
    if ids.len() > 0 {
        lemma_usages_fit(items, ids.drop_last(), role, seen);
        let own = item_usage(items[ids.last()], ids.last(), role);
        lemma_fit_together(items, role, item_usages(items, ids.drop_last(), role, seen), own);
    }
}

/// What making several sources takes fits.
proof fn lemma_sources_fit(
    items: Map<GlobalId, ItemView>,
    plans: Seq<CreateSourcePlans>,
    role: RoleId,
)
    ensures
        all_fit(items, role, sources_requirements(items, plans, role)),
    decreases plans.len(),
{
    if plans.len() > 0 {
        let last = plans.last();
        let ids = existing(items, last.depends_on@);
        lemma_sources_fit(items, plans.drop_last(), role);
        lemma_usages_fit(items, in_order(ids.to_set()), role, Set::empty());
        lemma_fit_together(
            items,
            role,
            sources_requirements(items, plans.drop_last(), role),
            source_requirements(
                items,
                last.plan.name.qualifiers,
                last.plan.cluster_config,
                ids,
                role,
            ),
        );
    }
}

/// What it takes of what objects lie in fits.
proof fn lemma_containers_fit(items: Map<GlobalId, ItemView>, ids: Seq<ObjectId>, role: RoleId)
    ensures
        all_fit(items, role, on_containers(items, ids, role)),
    decreases ids.len(),
{
    if ids.len() > 0 {
        lemma_containers_fit(items, ids.drop_last(), role);
    }
}

/// What altering default privileges takes fits.
proof fn lemma_defaults_fit(
    items: Map<GlobalId, ItemView>,
    objects: Seq<DefaultPrivilegeObject>,
    role: RoleId,
)
    ensures
        all_fit(items, role, default_requirements(objects, role)),
    decreases objects.len(),
{
    if objects.len() > 0 {
        lemma_defaults_fit(items, objects.drop_last(), role);
    }
}

/// What reading takes fits.
proof fn lemma_reads_fit(
    items: Map<GlobalId, ItemView>,
    ids: Seq<GlobalId>,
    role: RoleId,
    seen: Set<(ObjectId, RoleId)>,
)
    requires
        items.dom().finite(),
    ensures
        all_fit(items, role, reads(items, seq![ReadFrame { ids, role }], seen).required),
{
    let required = reads(items, seq![ReadFrame { ids, role }], seen).required;
    assert forall|i: int| 0 <= i < required.len() implies fits(
        items,
        role,
        #[trigger] required[i],
    ) by {
        assert(required.contains(required[i]));
        law_reads_take_no_more(items, ids, role, seen, required[i]);
        let (id, reader) = choose|id: GlobalId, reader: RoleId| #[trigger]
            is_read(items, ids, role, id, reader) && items.contains_key(id) && is_for(
                items,
                required[i],
                id,
                reader,
            );
        law_readers(items, ids, role, id, reader);
    };
}

/// What writing takes fits.
proof fn lemma_writes_fit(
    items: Map<GlobalId, ItemView>,
    id: GlobalId,
    privilege: Privilege,
    reads_column: bool,
    source: Set<GlobalId>,
    depends_on: Seq<GlobalId>,
    role: RoleId,
)
    requires
        items.dom().finite(),
    ensures
        all_fit(
            items,
            role,
            write_requirements(items, id, privilege, reads_column, source, depends_on, role),
        ),
{
    let seen = write_seen(items, id, reads_column, role);
    let target = write_target(items, id, privilege, reads_column, role);
    let read = reads(items, seq![ReadFrame { ids: in_order(source), role }], seen).required;
    let required = write_and_read(items, id, privilege, reads_column, source, role);
    lemma_reads_fit(items, in_order(source), role, seen);
    lemma_fit_together(items, role, target, read);
    let listed = items_of(required);
    lemma_usages_fit(items, in_order(depends_on.to_set()), role, listed);
    lemma_fit_together(
        items,
        role,
        required,
        usage_requirements(items, depends_on.to_set(), role, listed),
    );
}

/// Executing a plan takes privileges only on objects of a kind that has privileges, and only of
/// the role that executes it and of owners of views.
pub proof fn law_required_on_what_and_of_whom(
    items: Map<GlobalId, ItemView>,
    plan: Plan,
    target_cluster: Option<ClusterId>,
    depends_on: Seq<GlobalId>,
    role: RoleId,
    required: Requirement,
)
    requires
        items.dom().finite(),
        required_privileges(items, plan, target_cluster, depends_on, role).contains(required),
    ensures
        has_privileges(required.0),
        required.2 == role || owns_view(items, required.2),
{
    let all = required_privileges(items, plan, target_cluster, depends_on, role);
    lemma_usages_fit(items, in_order(depends_on.to_set()), role, Set::empty());
    lemma_reads_fit(items, depends_on, role, Set::empty());
    match plan {
        Plan::CreateSources(plans) => {
            lemma_sources_fit(items, plans@, role);
        },
        Plan::CreateSink(plan) => {
            lemma_reads_fit(items, seq![plan.sink.from], role, Set::empty());
        },
        Plan::DropObjects(plan) => {
            lemma_containers_fit(items, plan.referenced_ids@, role);
        },
        Plan::Insert(plan) => {
            lemma_writes_fit(
                items,
                plan.id,
                Privilege::Insert,
                any_column(plan.returning@),
                plan.values.depends_on@,
                depends_on,
                role,
            );
        },
        Plan::ReadThenWrite(plan) => {
            lemma_writes_fit(
                items,
                plan.id,
                mutation_privilege(plan.kind),
                any_column(plan.assignments@) || any_column(
                    plan.returning@,
                ),
                plan.selection.depends_on@,
                depends_on,
                role,
            );
        },
        Plan::GrantPrivileges(plan) | Plan::RevokePrivileges(plan) => {
            lemma_containers_fit(
                items,
                target_objects(plan.update_privileges@),
                role,
            );
        },
        Plan::AlterDefaultPrivileges(plan) => {
            lemma_defaults_fit(items, plan.privilege_objects@, role);
        },
        _ => {},
    }
    assert(all_fit(items, role, all));
    assert(fits(items, role, all[all.index_of(required)]));
}

/// What referring to items takes is what one of them takes that is not in `seen`.
proof fn lemma_usages(
    items: Map<GlobalId, ItemView>,
    ids: Seq<GlobalId>,
    role: RoleId,
    seen: Set<GlobalId>,
    required: Requirement,
)
    ensures
        item_usages(items, ids, role, seen).contains(required) <==> exists|id: GlobalId| #[trigger]
            ids.contains(id) && !seen.contains(id) && item_usage(items[id], id, role).contains(
                required,
            ),
    decreases ids.len(),
{
    let all = item_usages(items, ids, role, seen);
    if ids.len() > 0 {
        let front = ids.drop_last();
        let last = ids.last();
        let before = item_usages(items, front, role, seen);
        let own = item_usage(items[last], last, role);
        lemma_usages(items, front, role, seen, required);
        if all.contains(required) {
            let i = all.index_of(required);
            if i < before.len() {
                assert(before[i] == required);
                let id = choose|id: GlobalId| #[trigger]
                    front.contains(id) && !seen.contains(id) && item_usage(
                        items[id],
                        id,
                        role,
                    ).contains(required);
                assert(ids[front.index_of(id)] == id);
                assert(ids.contains(id));
            } else {
                assert(own[i - before.len()] == required);
                assert(own.contains(required));
                assert(ids.contains(last));
            }
        }
        if exists|id: GlobalId| #[trigger]
            ids.contains(id) && !seen.contains(id) && item_usage(items[id], id, role).contains(
                required,
            ) {
            let id = choose|id: GlobalId| #[trigger]
                ids.contains(id) && !seen.contains(id) && item_usage(items[id], id, role).contains(
                    required,
                );
            if id == last {
                assert(all[before.len() + own.index_of(required)] == required);
            } else {
                assert(front[ids.index_of(id)] == id);
                assert(front.contains(id));
                assert(all[before.index_of(required)] == required);
            }
        }
    }
}

/// Referring to different items takes different things.
proof fn lemma_usages_once(
    items: Map<GlobalId, ItemView>,
    ids: Seq<GlobalId>,
    role: RoleId,
    seen: Set<GlobalId>,
)
    requires
        ids.no_duplicates(),
    ensures
        each_once(item_usages(items, ids, role, seen)),
    decreases ids.len(),
{
    if ids.len() > 0 {
        let front = ids.drop_last();
        let last = ids.last();
        let before = item_usages(items, front, role, seen);
        let all = item_usages(items, ids, role, seen);
        lemma_usages_once(items, front, role, seen);
        assert forall|i: int, j: int| 0 <= i < j < all.len() implies subject(#[trigger] all[i])
            != subject(#[trigger] all[j]) by {
            assert(all[i] == before[i]);
            if j < before.len() {
                assert(all[j] == before[j]);
            } else {
                assert(before.contains(before[i]));
                lemma_usages(items, front, role, seen, before[i]);
                let id = choose|id: GlobalId| #[trigger]
                    front.contains(id) && !seen.contains(id) && item_usage(
                        items[id],
                        id,
                        role,
                    ).contains(before[i]);
                assert(ids[front.index_of(id)] == id);
                assert(id != last);
            }
        };
    }
}

/// Whether `required` is what referring to one of `ids` takes, which is not in `seen`.
pub open spec fn is_for_reference(
    items: Map<GlobalId, ItemView>,
    ids: Set<GlobalId>,
    role: RoleId,
    seen: Set<GlobalId>,
    required: Requirement,
) -> bool {
    exists|id: GlobalId| #[trigger]
        ids.contains(id) && !seen.contains(id) && item_usage(items[id], id, role).contains(required)
}

/// Referring to items takes exactly what referring to each of them takes that is not exempt, and
/// takes it once, however often an item is referred to.
pub proof fn law_references_count_once(
    items: Map<GlobalId, ItemView>,
    ids: Set<GlobalId>,
    role: RoleId,
    seen: Set<GlobalId>,
)
    requires
        ids.finite(),
    ensures
        each_once(usage_requirements(items, ids, role, seen)),
        forall|required: Requirement| #[trigger]
            usage_requirements(items, ids, role, seen).contains(required) == is_for_reference(
                items,
                ids,
                role,
                seen,
                required,
            ),
{
    let list = in_order(ids);
    lemma_in_order(ids);
    lemma_usages_once(items, list, role, seen);
    assert forall|required: Requirement| #[trigger]
        usage_requirements(items, ids, role, seen).contains(required) == is_for_reference(
            items,
            ids,
            role,
            seen,
            required,
        ) by {
        lemma_usages(items, list, role, seen, required);
        if is_for_reference(items, ids, role, seen, required) {
            let id = choose|id: GlobalId| #[trigger]
                ids.contains(id) && !seen.contains(id) && item_usage(items[id], id, role).contains(
                    required,
                );
            assert(list.to_set().contains(id));
            assert(list.contains(id));
        }
        if usage_requirements(items, ids, role, seen).contains(required) {
            let id = choose|id: GlobalId| #[trigger]
                list.contains(id) && !seen.contains(id) && item_usage(
                    items[id],
                    id,
                    role,
                ).contains(required);
            assert(list.to_set().contains(id));
        }
    };
}

/// Whether reading an item takes nothing on it but the privilege to select, and reads nothing else.
pub open spec fn is_selected(item: ItemView) -> bool {
    match item.item_type {
        CatalogItemType::Table
        | CatalogItemType::Source
        | CatalogItemType::Sink
        | CatalogItemType::Index
        | CatalogItemType::Func => true,
        CatalogItemType::View
        | CatalogItemType::MaterializedView
        | CatalogItemType::Type
        | CatalogItemType::Secret
        | CatalogItemType::Connection => false,
    }
}

/// A write that reads takes all that the read alone takes, as long as the item that is written to
/// is not itself read as anything but a table or the like.
pub proof fn law_writes_take_what_reads_take(
    items: Map<GlobalId, ItemView>,
    id: GlobalId,
    privilege: Privilege,
    reads_column: bool,
    source: Set<GlobalId>,
    role: RoleId,
    required: Requirement,
)
    requires
        items.dom().finite(),
        reads_column && is_read(items, in_order(source), role, id, role) ==> is_selected(items[id]),
        read_requirements(items, in_order(source), role).contains(required),
    ensures
        write_and_read(items, id, privilege, reads_column, source, role).contains(required),
{
    let ids = in_order(source);
    let seen = write_seen(items, id, reads_column, role);
    let target = write_target(items, id, privilege, reads_column, role);
    let read = reads(items, seq![ReadFrame { ids, role }], seen).required;
    let all = write_and_read(items, id, privilege, reads_column, source, role);
    assert(all == target + read);
    law_read_requirements(items, ids, role, required);
    let (x, reader) = choose|x: GlobalId, reader: RoleId| #[trigger]
        is_read(items, ids, role, x, reader) && items.contains_key(x) && is_for(
            items,
            required,
            x,
            reader,
        );
    law_reads_take_all(items, ids, role, seen, x, reader);
    assert(all[0] == requirement(items[id].qualifiers.schema(), Privilege::Usage, role));
    if seen.contains((ObjectId::Item(x), reader)) {
        assert(x == id && reader == role && reads_column);
        assert(all[2] == requirement(ObjectId::Item(id), Privilege::Select, role));
    } else if read.contains(required) {
        assert(all[target.len() + read.index_of(required)] == required);
    }
}

} // verus!
