//! What each plan is for, and what therefore it takes: of which roles one must be a member, what
//! one must own, and what privileges are required of whom.

use crate::acl::{AclMode, ObjectType, Privilege};
use crate::catalog::ItemView;
use crate::id_set::{in_order, lemma_in_order, Ranked};
use crate::ids::{
    ClusterId, GlobalId, ItemQualifiers, ObjectId, ResolvedDatabaseSpecifier, RoleId,
    SystemObjectId,
};
use crate::membership::{required_roles, ConnMeta};
use crate::ownership::{required_ownership, target_objects};
use crate::plan::{
    CreateSourcePlans, DefaultPrivilegeObject, MutationKind, Plan, SideEffectingFunc,
    SourceSinkClusterConfig, UpdatePrivilege,
};
use crate::privilege_laws::{is_for_reference, is_selected, law_references_count_once};
use crate::privileges::{
    default_requirements, existing, items_of, objects_known, on_container, on_containers,
    plan_known, refer, required_privileges, source_requirements, sources_requirements,
    write_and_read, write_seen, write_target,
};
use crate::read_laws::{
    asks, has_query, is_for, is_on_item, is_read, is_used, law_read_requirements,
    law_reads_look_up_what_is_read, law_reads_take_all, law_reads_take_no_more, schema_of,
};
use crate::reads::{all_known, read_known, read_requirements, reads, ReadFrame, Requirement};
use crate::usage::{item_usage, item_usages, usage_requirements};
use vstd::prelude::*;

verus! {

/// Who changes something's owner must be a member of the new owner.
pub proof fn law_members_of_new_owners(plan: Plan, conns: Map<u32, ConnMeta>)
    ensures
        plan matches Plan::AlterOwner(p) ==> required_roles(plan, conns) == seq![p.new_owner],
        plan matches Plan::ReassignOwned(p) ==> {
            &&& required_roles(plan, conns).len() == p.old_roles@.len() + 1
            &&& required_roles(plan, conns).last() == p.new_role
        },
{
}

/// Who does something with all that roles own, or with what is granted by default on what they
/// will own, must be a member of every one of these roles, and for that of no other but a new
/// owner.
pub proof fn law_members_of_every_role_concerned(plan: Plan, conns: Map<u32, ConnMeta>, i: int)
    ensures
        plan matches Plan::DropOwned(p) ==> {
            &&& required_roles(plan, conns).len() == p.role_ids@.len()
            &&& 0 <= i < p.role_ids@.len() ==> required_roles(plan, conns)[i] == p.role_ids@[i]
        },
        plan matches Plan::ReassignOwned(p) ==> {
            &&& required_roles(plan, conns).len() == p.old_roles@.len() + 1
            &&& 0 <= i < p.old_roles@.len() ==> required_roles(plan, conns)[i] == p.old_roles@[i]
        },
        plan matches Plan::AlterDefaultPrivileges(p) ==> {
            &&& required_roles(plan, conns).len() == p.privilege_objects@.len()
            &&& 0 <= i < p.privilege_objects@.len() ==> required_roles(plan, conns)[i]
                == p.privilege_objects@[i].role_id
        },
{
}

/// Who cancels what a connection is executing must be a member of the role that is authenticated
/// on the connection, and of none where the connection is not in use.
pub proof fn law_members_of_who_is_connected(
    plan: Plan,
    conns: Map<u32, ConnMeta>,
    connection_id: u32,
)
    requires
        plan == Plan::SideEffectingFunc(SideEffectingFunc::PgCancelBackend { connection_id }),
    ensures
        conns.contains_key(connection_id) ==> required_roles(plan, conns) == seq![
            conns[connection_id].authenticated_role,
        ],
        !conns.contains_key(connection_id) ==> required_roles(plan, conns).len() == 0,
{
}

/// Whether a plan is about roles and what they own, or cancels something.
pub open spec fn is_about_roles(plan: Plan) -> bool {
    plan is AlterOwner || plan is DropOwned || plan is ReassignOwned || plan
        is AlterDefaultPrivileges || plan is SideEffectingFunc
}

/// No other plan takes membership of a role.
pub proof fn law_members_of_no_role(plan: Plan, conns: Map<u32, ConnMeta>)
    requires
        !is_about_roles(plan),
    ensures
        required_roles(plan, conns).len() == 0,
{
}

/// The item that a plan alters, if it alters one.
pub open spec fn altered_item(plan: Plan) -> Option<GlobalId> {
    match plan {
        Plan::AlterIndexSetOptions(p) => Some(p.id),
        Plan::AlterIndexResetOptions(p) => Some(p.id),
        Plan::AlterSink(p) => Some(p.id),
        Plan::AlterSource(p) => Some(p.id),
        Plan::AlterItemRename(p) => Some(p.id),
        Plan::AlterSecret(p) => Some(p.id),
        Plan::RotateKeys(p) => Some(p.id),
        _ => None,
    }
}

/// Who alters an object, be it by giving it another owner, must own it.
pub proof fn law_own_what_is_altered(plan: Plan)
    ensures
        altered_item(plan) matches Some(id) ==> required_ownership(plan) == seq![
            ObjectId::Item(id),
        ],
        plan matches Plan::AlterOwner(p) ==> required_ownership(plan) == seq![p.id],
        plan matches Plan::AlterCluster(p) ==> required_ownership(plan) == seq![
            ObjectId::Cluster(p.id),
        ],
        plan matches Plan::AlterClusterRename(p) ==> required_ownership(plan) == seq![
            ObjectId::Cluster(p.id),
        ],
        plan matches Plan::AlterClusterReplicaRename(p) ==> required_ownership(plan) == seq![
            ObjectId::ClusterReplica(p.cluster_id, p.replica_id),
        ],
{
}

/// Who replaces a view must own the view that is replaced, and who indexes an item must own the
/// item. Who makes a view that replaces none need own nothing.
pub proof fn law_own_what_is_replaced_or_indexed(plan: Plan)
    ensures
        plan matches Plan::CreateIndex(p) ==> required_ownership(plan) == seq![
            ObjectId::Item(p.index.on),
        ],
        plan matches Plan::CreateView(p) ==> (match p.replace {
            Some(id) => required_ownership(plan) == seq![ObjectId::Item(id)],
            None => required_ownership(plan).len() == 0,
        }),
        plan matches Plan::CreateMaterializedView(p) ==> (match p.replace {
            Some(id) => required_ownership(plan) == seq![ObjectId::Item(id)],
            None => required_ownership(plan).len() == 0,
        }),
{
}

/// Who drops objects must own every object that the statement names, and no other.
pub proof fn law_own_what_is_dropped(plan: Plan, i: int)
    requires
        plan is DropObjects,
    ensures
        required_ownership(plan).len() == plan->DropObjects_0.referenced_ids@.len(),
        0 <= i < required_ownership(plan).len() ==> required_ownership(plan)[i]
            == plan->DropObjects_0.referenced_ids@[i],
{
}

/// What privileges are granted or revoked on, if a plan does that.
pub open spec fn updates_of(plan: Plan) -> Option<Seq<UpdatePrivilege>> {
    match plan {
        Plan::GrantPrivileges(p) => Some(p.update_privileges@),
        Plan::RevokePrivileges(p) => Some(p.update_privileges@),
        _ => None,
    }
}

/// Whether one of `updates` is on the object `id`.
pub open spec fn is_updated(updates: Seq<UpdatePrivilege>, id: ObjectId) -> bool {
    exists|i: int|
        0 <= i < updates.len() && (#[trigger] updates[i]).target_id == SystemObjectId::Object(id)
}

/// The objects that are updated are those that one of the updates is on.
proof fn lemma_targets(updates: Seq<UpdatePrivilege>, id: ObjectId)
    ensures
        target_objects(updates).contains(id) <==> is_updated(updates, id),
    decreases updates.len(),
{
    let all = target_objects(updates);
    if updates.len() > 0 {
        let front = updates.drop_last();
        let last = updates.last();
        let before = target_objects(front);
        lemma_targets(front, id);
        if all.contains(id) {
            let n = all.index_of(id);
            if n < before.len() {
                assert(before[n] == id);
                let i = choose|i: int|
                    0 <= i < front.len() && (#[trigger] front[i]).target_id
                        == SystemObjectId::Object(id);
                assert(updates[i] == front[i]);
            } else {
                assert(updates[updates.len() - 1].target_id == SystemObjectId::Object(id));
            }
        }
        if is_updated(updates, id) {
            let i = choose|i: int|
                0 <= i < updates.len() && (#[trigger] updates[i]).target_id
                    == SystemObjectId::Object(id);
            if i < front.len() {
                assert(front[i] == updates[i]);
                assert(all[before.index_of(id)] == id);
            } else {
                assert(all[before.len() as int] == id);
            }
        }
    }
}

/// Who grants or revokes privileges on objects must own every one of these objects, and nothing
/// for what is granted or revoked on the system.
pub proof fn law_own_what_privileges_are_on(plan: Plan, updates: Seq<UpdatePrivilege>, id: ObjectId)
    requires
        updates_of(plan) == Some(updates),
    ensures
        required_ownership(plan).contains(id) <==> is_updated(updates, id),
{
    lemma_targets(updates, id);
}

/// The objects that are updated come in the order of the updates, each as often as it is updated.
pub proof fn law_updates_in_turn(a: Seq<UpdatePrivilege>, b: Seq<UpdatePrivilege>)
    ensures
        target_objects(a + b) == target_objects(a) + target_objects(b),
        a.len() == 1 ==> (match a[0].target_id {
            SystemObjectId::Object(id) => target_objects(a) == seq![id],
            SystemObjectId::System => target_objects(a).len() == 0,
        }),
        a.len() == 0 ==> target_objects(a).len() == 0,
    decreases b.len(),
{
    if a.len() == 1 {
        let none = Seq::<UpdatePrivilege>::empty();
        assert(a.drop_last() =~= none);
        assert(target_objects(none) =~= Seq::empty());
        assert(a.last() == a[0]);
    }
    if b.len() == 0 {
        assert(a + b =~= a);
        assert(target_objects(a) + target_objects(b) =~= target_objects(a));
    } else {
        law_updates_in_turn(a, b.drop_last());
        assert((a + b).drop_last() =~= a + b.drop_last());
        assert((a + b).last() == b.last());
        assert(target_objects(a + b) =~= target_objects(a) + target_objects(b));
    }
}

/// Whether a plan alters, replaces, indexes or drops objects, or grants or revokes privileges.
pub open spec fn is_about_owned(plan: Plan) -> bool {
    ||| altered_item(plan) is Some
    ||| updates_of(plan) is Some
    ||| plan is AlterOwner
    ||| plan is AlterCluster
    ||| plan is AlterClusterRename
    ||| plan is AlterClusterReplicaRename
    ||| plan is CreateIndex
    ||| plan is CreateView
    ||| plan is CreateMaterializedView
    ||| plan is DropObjects
}

/// No other plan takes that one owns something.
pub proof fn law_own_nothing(plan: Plan)
    requires
        !is_about_owned(plan),
    ensures
        required_ownership(plan).len() == 0,
{
}

/// What is in two lists together is in one of them.
proof fn lemma_in_either(a: Seq<Requirement>, b: Seq<Requirement>, required: Requirement)
    ensures
        (a + b).contains(required) <==> a.contains(required) || b.contains(required),
{
    if (a + b).contains(required) {
        let i = (a + b).index_of(required);
        if i < a.len() {
            assert(a[i] == required);
        } else {
            assert(b[i - a.len()] == required);
        }
    }
    if a.contains(required) {
        assert((a + b)[a.index_of(required)] == required);
    }
    if b.contains(required) {
        assert((a + b)[a.len() + b.index_of(required)] == required);
    }
}

/// What is in a list of one is that one.
proof fn lemma_in_one(a: Requirement, required: Requirement)
    ensures
        seq![a].contains(required) <==> required == a,
        !Seq::<Requirement>::empty().contains(required),
{
    assert(seq![a][0] == a);
}

/// What is in a list of two is one of them.
proof fn lemma_in_two(a: Requirement, b: Requirement, required: Requirement)
    ensures
        seq![a, b].contains(required) <==> required == a || required == b,
{
    assert(seq![a, b][0] == a);
    assert(seq![a, b][1] == b);
}

/// The schema that a name lies in.
pub open spec fn schema_in(qualifiers: ItemQualifiers) -> SystemObjectId {
    SystemObjectId::Object(ObjectId::Schema(qualifiers.database_spec, qualifiers.schema_spec))
}

/// Whether `required` is what it takes that someone reads something that a read of `ids` on behalf
/// of `role` reads, directly or through views.
pub open spec fn is_for_read(
    items: Map<GlobalId, ItemView>,
    ids: Seq<GlobalId>,
    role: RoleId,
    required: Requirement,
) -> bool {
    exists|id: GlobalId, reader: RoleId| #[trigger]
        is_read(items, ids, role, id, reader) && items.contains_key(id) && is_for(
            items,
            required,
            id,
            reader,
        )
}

/// Whether a query is evaluated on a cluster.
pub open spec fn needs_cluster(plan: Plan) -> bool {
    match plan {
        Plan::Select(p) => !p.source.is_const,
        Plan::Subscribe => true,
        _ => false,
    }
}

/// A query takes that everyone may read what it reads on their behalf, the owner of a view what the
/// view reads included, and that the role may use the cluster that it is evaluated on; and nothing
/// else. What the read takes comes first.
pub proof fn law_queries_read(
    items: Map<GlobalId, ItemView>,
    plan: Plan,
    target_cluster: Option<ClusterId>,
    depends_on: Seq<GlobalId>,
    role: RoleId,
    required: Requirement,
)
    requires
        items.dom().finite(),
        plan is Select || plan is Subscribe || plan is Explain,
    ensures
        ({
            let all = required_privileges(items, plan, target_cluster, depends_on, role);
            let on_cluster = needs_cluster(plan) && target_cluster is Some;
            &&& all.contains(required) <==> is_for_read(items, depends_on, role, required) || (
            on_cluster && asks(
                required,
                SystemObjectId::Object(ObjectId::Cluster(target_cluster->0)),
                Privilege::Usage,
                role,
            ))
            &&& read_requirements(items, depends_on, role).is_prefix_of(all)
            &&& all.len() == read_requirements(items, depends_on, role).len() + (if on_cluster {
                1int
            } else {
                0int
            })
        }),
{
    let all = required_privileges(items, plan, target_cluster, depends_on, role);
    let read = read_requirements(items, depends_on, role);
    law_read_requirements(items, depends_on, role, required);
    let on_cluster = needs_cluster(plan) && target_cluster is Some;
    let rest = all.skip(read.len() as int);
    assert(all.take(read.len() as int) =~= read);
    assert(all =~= read + rest);
    lemma_in_either(read, rest, required);
    if on_cluster {
        let cluster = (
            SystemObjectId::Object(ObjectId::Cluster(target_cluster->0)),
            AclMode::only(Privilege::Usage),
            role,
        );
        assert(rest =~= seq![cluster]);
        lemma_in_one(cluster, required);
    } else {
        assert(rest =~= Seq::<Requirement>::empty());
    }
}

/// Whether `required` is what it takes to run something on the cluster that `config` gives: to make
/// something on it, or to make a cluster where none is given.
pub open spec fn is_for_cluster(
    config: SourceSinkClusterConfig,
    role: RoleId,
    required: Requirement,
) -> bool {
    match config {
        SourceSinkClusterConfig::Existing { id } => asks(
            required,
            SystemObjectId::Object(ObjectId::Cluster(id)),
            Privilege::Create,
            role,
        ),
        SourceSinkClusterConfig::Linked => asks(
            required,
            SystemObjectId::System,
            Privilege::CreateCluster,
            role,
        ),
        SourceSinkClusterConfig::Undefined => asks(
            required,
            SystemObjectId::System,
            Privilege::CreateCluster,
            role,
        ),
    }
}

/// To make a sink takes to make something in its schema, to read what it writes as a query would,
/// and to run it on its cluster; and nothing else. It takes them in this order.
pub proof fn law_sinks_read(
    items: Map<GlobalId, ItemView>,
    plan: Plan,
    target_cluster: Option<ClusterId>,
    depends_on: Seq<GlobalId>,
    role: RoleId,
    required: Requirement,
)
    requires
        items.dom().finite(),
        plan is CreateSink,
    ensures
        ({
            let sink = plan->CreateSink_0;
            let all = required_privileges(items, plan, target_cluster, depends_on, role);
            let read = read_requirements(items, seq![sink.sink.from], role);
            &&& all.contains(required) <==> {
                ||| asks(required, schema_in(sink.name.qualifiers), Privilege::Create, role)
                ||| is_for_read(items, seq![sink.sink.from], role, required)
                ||| is_for_cluster(sink.cluster_config, role, required)
            }
            &&& all.len() == read.len() + 2
            &&& asks(all[0], schema_in(sink.name.qualifiers), Privilege::Create, role)
            &&& all.subrange(1, read.len() as int + 1) == read
            &&& is_for_cluster(sink.cluster_config, role, all.last())
        }),
{
    let sink = plan->CreateSink_0;
    let all = required_privileges(items, plan, target_cluster, depends_on, role);
    let read = read_requirements(items, seq![sink.sink.from], role);
    law_read_requirements(items, seq![sink.sink.from], role, required);
    let first = all[0];
    let last = all.last();
    assert(all.subrange(1, read.len() as int + 1) =~= read);
    assert(all =~= (seq![first] + read) + seq![last]);
    lemma_in_either(seq![first] + read, seq![last], required);
    lemma_in_either(seq![first], read, required);
    lemma_in_one(first, required);
    lemma_in_one(last, required);
}

/// Whether `required` is to use one of `ids` that is there to be used.
pub open spec fn is_for_used(
    items: Map<GlobalId, ItemView>,
    ids: Seq<GlobalId>,
    role: RoleId,
    required: Requirement,
) -> bool {
    exists|id: GlobalId| #[trigger]
        ids.contains(id) && is_used(items[id]) && asks(
            required,
            SystemObjectId::Object(ObjectId::Item(id)),
            Privilege::Usage,
            role,
        )
}

/// What referring to an item takes is to use it, if it is there to be used.
proof fn lemma_item_usage(item: ItemView, id: GlobalId, role: RoleId, required: Requirement)
    ensures
        item_usage(item, id, role).contains(required) <==> is_used(item) && asks(
            required,
            SystemObjectId::Object(ObjectId::Item(id)),
            Privilege::Usage,
            role,
        ),
{
    let usage = (
        SystemObjectId::Object(ObjectId::Item(id)),
        AclMode::only(Privilege::Usage),
        role,
    );
    lemma_in_one(usage, required);
    if is_used(item) {
        assert(item_usage(item, id, role) =~= seq![usage]);
    } else {
        assert(item_usage(item, id, role) =~= Seq::<Requirement>::empty());
    }
}

/// What referring to items takes is to use those that are there to be used.
proof fn lemma_refer(
    items: Map<GlobalId, ItemView>,
    ids: Seq<GlobalId>,
    role: RoleId,
    required: Requirement,
)
    ensures
        refer(items, ids, role).contains(required) <==> is_for_used(items, ids, role, required),
{
    let none = Set::<GlobalId>::empty();
    vstd::seq_lib::seq_to_set_is_finite(ids);
    law_references_count_once(items, ids.to_set(), role, none);
    assert(refer(items, ids, role).contains(required) == is_for_reference(
        items,
        ids.to_set(),
        role,
        none,
        required,
    ));
    if is_for_reference(items, ids.to_set(), role, none, required) {
        let id = choose|id: GlobalId| #[trigger]
            ids.to_set().contains(id) && !none.contains(id) && item_usage(
                items[id],
                id,
                role,
            ).contains(required);
        lemma_item_usage(items[id], id, role, required);
        assert(ids.contains(id));
    }
    if is_for_used(items, ids, role, required) {
        let id = choose|id: GlobalId| #[trigger]
            ids.contains(id) && is_used(items[id]) && asks(
                required,
                SystemObjectId::Object(ObjectId::Item(id)),
                Privilege::Usage,
                role,
            );
        lemma_item_usage(items[id], id, role, required);
        assert(ids.to_set().contains(id));
    }
}

/// Whether the item `a` comes before the item `b` where items are listed: those of the system come
/// first, then those of users, then those of queries, each kind by its numbers.
pub open spec fn item_comes_before(a: GlobalId, b: GlobalId) -> bool {
    match (a, b) {
        (GlobalId::System(m), GlobalId::System(n)) => m < n,
        (GlobalId::System(_), _) => true,
        (GlobalId::User(m), GlobalId::User(n)) => m < n,
        (GlobalId::User(_), GlobalId::System(_)) => false,
        (GlobalId::User(_), _) => true,
        (GlobalId::Transient(m), GlobalId::Transient(n)) => m < n,
        (GlobalId::Transient(_), GlobalId::Explain) => true,
        (GlobalId::Transient(_), _) => false,
        (GlobalId::Explain, _) => false,
    }
}

/// Whether the role `a` comes before the role `b` where roles are listed: those of the system come
/// first, then those of users, each kind by its numbers, and last the role of everybody.
pub open spec fn role_comes_before(a: RoleId, b: RoleId) -> bool {
    match (a, b) {
        (RoleId::System(m), RoleId::System(n)) => m < n,
        (RoleId::System(_), _) => true,
        (RoleId::User(m), RoleId::User(n)) => m < n,
        (RoleId::User(_), RoleId::Public) => true,
        (RoleId::User(_), RoleId::System(_)) => false,
        (RoleId::Public, _) => false,
    }
}

/// Items and roles are listed in their order, each once, and none is left out or made up.
pub proof fn law_listed_in_order(ids: Set<GlobalId>, roles: Set<RoleId>, i: int, j: int)
    requires
        ids.finite(),
        roles.finite(),
    ensures
        in_order(ids).to_set() == ids,
        in_order(roles).to_set() == roles,
        0 <= i < j < in_order(ids).len() ==> item_comes_before(in_order(ids)[i], in_order(ids)[j]),
        0 <= i < j < in_order(roles).len() ==> role_comes_before(
            in_order(roles)[i],
            in_order(roles)[j],
        ),
{
    lemma_in_order(ids);
    lemma_in_order(roles);
    if 0 <= i < j < in_order(ids).len() {
        assert(in_order(ids)[i].rank() < in_order(ids)[j].rank());
    }
    if 0 <= i < j < in_order(roles).len() {
        assert(in_order(roles)[i].rank() < in_order(roles)[j].rank());
    }
}

/// The requirements that referring to items takes are on items, in the order of these.
proof fn lemma_usages_ordered(
    items: Map<GlobalId, ItemView>,
    ids: Seq<GlobalId>,
    role: RoleId,
    seen: Set<GlobalId>,
)
    requires
        forall|i: int, j: int|
            0 <= i < j < ids.len() ==> item_comes_before(#[trigger] ids[i], #[trigger] ids[j]),
    ensures
        forall|i: int|
            0 <= i < item_usages(items, ids, role, seen).len() ==> is_on_one_of(
                #[trigger] item_usages(items, ids, role, seen)[i],
                ids,
            ),
        forall|i: int, j: int|
            0 <= i < j < item_usages(items, ids, role, seen).len() ==> is_on_item_before(
                #[trigger] item_usages(items, ids, role, seen)[i],
                #[trigger] item_usages(items, ids, role, seen)[j],
            ),
    decreases ids.len(),
{
    if ids.len() > 0 {
        let front = ids.drop_last();
        let last = ids.last();
        let before = item_usages(items, front, role, seen);
        let all = item_usages(items, ids, role, seen);
        assert forall|i: int, j: int| 0 <= i < j < front.len() implies item_comes_before(
            #[trigger] front[i],
            #[trigger] front[j],
        ) by {
            assert(front[i] == ids[i] && front[j] == ids[j]);
        };
        lemma_usages_ordered(items, front, role, seen);
        assert(ids[ids.len() - 1] == last);
        assert forall|i: int| 0 <= i < all.len() implies is_on_one_of(#[trigger] all[i], ids) by {
            if i < before.len() {
                assert(all[i] == before[i]);
                assert(is_on_one_of(before[i], front));
                let k = choose|k: int|
                    0 <= k < front.len() && before[i].0 == SystemObjectId::Object(
                        ObjectId::Item(#[trigger] front[k]),
                    );
                assert(ids[k] == front[k]);
            } else {
                assert(all[i].0 == SystemObjectId::Object(ObjectId::Item(last)));
            }
        };
        assert forall|i: int, j: int| 0 <= i < j < all.len() implies is_on_item_before(
            #[trigger] all[i],
            #[trigger] all[j],
        ) by {
            assert(all[i] == before[i]);
            if j < before.len() {
                assert(all[j] == before[j]);
            } else {
                assert(is_on_one_of(before[i], front));
                let k = choose|k: int|
                    0 <= k < front.len() && before[i].0 == SystemObjectId::Object(
                        ObjectId::Item(#[trigger] front[k]),
                    );
                assert(ids[k] == front[k]);
                assert(item_comes_before(ids[k], ids[ids.len() - 1]));
            }
        };
    }
}

/// Whether `required` is on one of `ids`.
spec fn is_on_one_of(required: Requirement, ids: Seq<GlobalId>) -> bool {
    exists|k: int|
        0 <= k < ids.len() && required.0 == SystemObjectId::Object(
            ObjectId::Item(#[trigger] ids[k]),
        )
}

/// Whether `a` and `b` are on items, and that of `a` comes first.
pub open spec fn is_on_item_before(a: Requirement, b: Requirement) -> bool {
    match (a.0, b.0) {
        (
            SystemObjectId::Object(ObjectId::Item(x)),
            SystemObjectId::Object(ObjectId::Item(y)),
        ) => item_comes_before(x, y),
        _ => false,
    }
}

/// To refer to items takes to use those that are there to be used and are not exempt, each once and
/// in their order; and nothing else.
pub proof fn law_referring_to_items(
    items: Map<GlobalId, ItemView>,
    ids: Seq<GlobalId>,
    role: RoleId,
    seen: Set<GlobalId>,
    required: Requirement,
    i: int,
    j: int,
)
    ensures
        ({
            let all = usage_requirements(items, ids.to_set(), role, seen);
            &&& all.contains(required) <==> exists|id: GlobalId| #[trigger]
                ids.contains(id) && !seen.contains(id) && is_used(items[id]) && asks(
                    required,
                    SystemObjectId::Object(ObjectId::Item(id)),
                    Privilege::Usage,
                    role,
                )
            &&& 0 <= i < j < all.len() ==> is_on_item_before(all[i], all[j])
            &&& seen == Set::<GlobalId>::empty() ==> refer(items, ids, role) == all
        }),
{
    let set = ids.to_set();
    let all = usage_requirements(items, set, role, seen);
    vstd::seq_lib::seq_to_set_is_finite(ids);
    law_references_count_once(items, set, role, seen);
    assert(all.contains(required) == is_for_reference(items, set, role, seen, required));
    if is_for_reference(items, set, role, seen, required) {
        let id = choose|id: GlobalId| #[trigger]
            set.contains(id) && !seen.contains(id) && item_usage(items[id], id, role).contains(
                required,
            );
        lemma_item_usage(items[id], id, role, required);
        assert(ids.contains(id));
    }
    if exists|id: GlobalId| #[trigger]
        ids.contains(id) && !seen.contains(id) && is_used(items[id]) && asks(
            required,
            SystemObjectId::Object(ObjectId::Item(id)),
            Privilege::Usage,
            role,
        ) {
        let id = choose|id: GlobalId| #[trigger]
            ids.contains(id) && !seen.contains(id) && is_used(items[id]) && asks(
                required,
                SystemObjectId::Object(ObjectId::Item(id)),
                Privilege::Usage,
                role,
            );
        lemma_item_usage(items[id], id, role, required);
        assert(set.contains(id));
    }
    let list = in_order(set);
    assert forall|k: int, l: int| 0 <= k < l < list.len() implies item_comes_before(
        #[trigger] list[k],
        #[trigger] list[l],
    ) by {
        law_listed_in_order(set, Set::empty(), k, l);
    };
    lemma_usages_ordered(items, list, role, seen);
}

/// Where a plan makes an item that refers to others, if it does.
pub open spec fn made_in(plan: Plan) -> Option<ItemQualifiers> {
    match plan {
        Plan::CreateConnection(p) => Some(p.name.qualifiers),
        Plan::CreateTable(p) => Some(p.name.qualifiers),
        Plan::CreateView(p) => Some(p.name.qualifiers),
        Plan::CreateType(p) => Some(p.name.qualifiers),
        Plan::CreateMaterializedView(p) => Some(p.name.qualifiers),
        Plan::CreateIndex(p) => Some(p.name.qualifiers),
        Plan::CreateSource(p) => Some(p.name.qualifiers),
        _ => None,
    }
}

/// Whether `required` is to make on a cluster what `plan` makes on one.
pub open spec fn is_for_made_on(plan: Plan, role: RoleId, required: Requirement) -> bool {
    match plan {
        Plan::CreateMaterializedView(p) => asks(
            required,
            SystemObjectId::Object(ObjectId::Cluster(p.materialized_view.cluster_id)),
            Privilege::Create,
            role,
        ),
        Plan::CreateIndex(p) => asks(
            required,
            SystemObjectId::Object(ObjectId::Cluster(p.index.cluster_id)),
            Privilege::Create,
            role,
        ),
        Plan::CreateSource(p) => is_for_cluster(p.cluster_config, role, required),
        _ => false,
    }
}

/// Whether a plan makes something that runs on a cluster.
pub open spec fn is_made_on_cluster(plan: Plan) -> bool {
    plan is CreateMaterializedView || plan is CreateIndex || plan is CreateSource
}

/// To make an item takes to make something in its schema, to make something on its cluster if it
/// runs on one, and to use what it refers to of what is there to be used; and nothing else. The
/// schema comes first, then the cluster.
pub proof fn law_making_items(
    items: Map<GlobalId, ItemView>,
    plan: Plan,
    target_cluster: Option<ClusterId>,
    depends_on: Seq<GlobalId>,
    role: RoleId,
    required: Requirement,
)
    requires
        made_in(plan) is Some,
    ensures
        ({
            let schema = schema_in(made_in(plan)->0);
            let all = required_privileges(items, plan, target_cluster, depends_on, role);
            &&& all.contains(required) <==> {
                ||| asks(required, schema, Privilege::Create, role)
                ||| is_for_made_on(plan, role, required)
                ||| is_for_used(items, depends_on, role, required)
            }
            &&& all.len() > 0 && asks(all[0], schema, Privilege::Create, role)
            &&& is_made_on_cluster(plan) ==> all.len() > 1 && is_for_made_on(plan, role, all[1])
            &&& all.skip(if is_made_on_cluster(plan) { 2 } else { 1 }) == refer(
                items,
                depends_on,
                role,
            )
        }),
{
    let all = required_privileges(items, plan, target_cluster, depends_on, role);
    let references = refer(items, depends_on, role);
    lemma_refer(items, depends_on, role, required);
    if is_made_on_cluster(plan) {
        let (a, b) = (all[0], all[1]);
        assert(all.skip(2) =~= references);
        assert(all =~= seq![a, b] + references);
        lemma_in_either(seq![a, b], references, required);
        lemma_in_two(a, b, required);
    } else {
        let a = all[0];
        assert(all.skip(1) =~= references);
        assert(all =~= seq![a] + references);
        lemma_in_either(seq![a], references, required);
        lemma_in_one(a, required);
    }
}

/// To make a secret takes to make something in its schema, and nothing else, whatever it refers to.
pub proof fn law_making_secrets(
    items: Map<GlobalId, ItemView>,
    plan: Plan,
    target_cluster: Option<ClusterId>,
    depends_on: Seq<GlobalId>,
    role: RoleId,
)
    requires
        plan is CreateSecret,
    ensures
        ({
            let all = required_privileges(items, plan, target_cluster, depends_on, role);
            &&& all.len() == 1
            &&& asks(
                all[0],
                schema_in(plan->CreateSecret_0.name.qualifiers),
                Privilege::Create,
                role,
            )
        }),
{
}

/// Whether `required` is what making one of several sources takes. Of what the source refers to,
/// what is not known yet is not looked at.
pub open spec fn is_for_source(
    items: Map<GlobalId, ItemView>,
    source: CreateSourcePlans,
    role: RoleId,
    required: Requirement,
) -> bool {
    ||| asks(required, schema_in(source.plan.name.qualifiers), Privilege::Create, role)
    ||| is_for_cluster(source.plan.cluster_config, role, required)
    ||| exists|id: GlobalId| #[trigger]
        source.depends_on@.contains(id) && items.contains_key(id) && is_used(items[id]) && asks(
            required,
            SystemObjectId::Object(ObjectId::Item(id)),
            Privilege::Usage,
            role,
        )
}

/// Those of some items that are known are those that are known.
proof fn lemma_existing(items: Map<GlobalId, ItemView>, ids: Seq<GlobalId>, id: GlobalId)
    ensures
        existing(items, ids).contains(id) <==> ids.contains(id) && items.contains_key(id),
    decreases ids.len(),
{
    reveal(Seq::filter);
    if ids.len() > 0 {
        let front = ids.drop_last();
        let all = existing(items, ids);
        let before = existing(items, front);
        lemma_existing(items, front, id);
        assert(all == if items.contains_key(ids.last()) {
            before.push(ids.last())
        } else {
            before
        });
        if all.contains(id) {
            let i = all.index_of(id);
            if i < before.len() {
                assert(before[i] == id);
                assert(ids[front.index_of(id)] == id);
            } else {
                assert(ids[ids.len() - 1] == id);
            }
        }
        if ids.contains(id) && items.contains_key(id) {
            if id == ids.last() {
                assert(all[before.len() as int] == id);
            } else {
                assert(front[ids.index_of(id)] == id);
                assert(all[before.index_of(id)] == id);
            }
        }
    }
}

/// What making one source takes.
proof fn lemma_source(
    items: Map<GlobalId, ItemView>,
    source: CreateSourcePlans,
    role: RoleId,
    required: Requirement,
)
    ensures
        source_requirements(
            items,
            source.plan.name.qualifiers,
            source.plan.cluster_config,
            existing(items, source.depends_on@),
            role,
        ).contains(required) <==> is_for_source(items, source, role, required),
{
    let ids = existing(items, source.depends_on@);
    let all = source_requirements(
        items,
        source.plan.name.qualifiers,
        source.plan.cluster_config,
        ids,
        role,
    );
    let references = refer(items, ids, role);
    let (a, b) = (all[0], all[1]);
    assert(all =~= seq![a, b] + references);
    lemma_in_either(seq![a, b], references, required);
    lemma_in_two(a, b, required);
    lemma_refer(items, ids, role, required);
    if is_for_used(items, ids, role, required) {
        let id = choose|id: GlobalId| #[trigger]
            ids.contains(id) && is_used(items[id]) && asks(
                required,
                SystemObjectId::Object(ObjectId::Item(id)),
                Privilege::Usage,
                role,
            );
        lemma_existing(items, source.depends_on@, id);
    }
    if exists|id: GlobalId| #[trigger]
        source.depends_on@.contains(id) && items.contains_key(id) && is_used(items[id]) && asks(
            required,
            SystemObjectId::Object(ObjectId::Item(id)),
            Privilege::Usage,
            role,
        ) {
        let id = choose|id: GlobalId| #[trigger]
            source.depends_on@.contains(id) && items.contains_key(id) && is_used(items[id]) && asks(
                required,
                SystemObjectId::Object(ObjectId::Item(id)),
                Privilege::Usage,
                role,
            );
        lemma_existing(items, source.depends_on@, id);
        assert(ids.contains(id));
    }
}

/// Whether `required` is what making one of `sources` takes.
pub open spec fn is_for_sources(
    items: Map<GlobalId, ItemView>,
    sources: Seq<CreateSourcePlans>,
    role: RoleId,
    required: Requirement,
) -> bool {
    exists|i: int|
        0 <= i < sources.len() && is_for_source(items, #[trigger] sources[i], role, required)
}

/// What making several sources takes is what making one of them takes.
proof fn lemma_sources(
    items: Map<GlobalId, ItemView>,
    sources: Seq<CreateSourcePlans>,
    role: RoleId,
    required: Requirement,
)
    ensures
        sources_requirements(items, sources, role).contains(required) <==> is_for_sources(
            items,
            sources,
            role,
            required,
        ),
    decreases sources.len(),
{
    if sources.len() > 0 {
        let front = sources.drop_last();
        let last = sources.last();
        lemma_sources(items, front, role, required);
        lemma_source(items, last, role, required);
        lemma_in_either(
            sources_requirements(items, front, role),
            source_requirements(
                items,
                last.plan.name.qualifiers,
                last.plan.cluster_config,
                existing(items, last.depends_on@),
                role,
            ),
            required,
        );
        if is_for_sources(items, front, role, required) {
            let i = choose|i: int|
                0 <= i < front.len() && is_for_source(items, #[trigger] front[i], role, required);
            assert(sources[i] == front[i]);
        }
        if is_for_source(items, last, role, required) {
            assert(sources[sources.len() - 1] == last);
        }
        if is_for_sources(items, sources, role, required) {
            let i = choose|i: int|
                0 <= i < sources.len() && is_for_source(
                    items,
                    #[trigger] sources[i],
                    role,
                    required,
                );
            if i < front.len() {
                assert(front[i] == sources[i]);
            }
        }
    }
}

/// To make several sources takes what making each of them takes, and nothing else.
pub proof fn law_making_sources(
    items: Map<GlobalId, ItemView>,
    plan: Plan,
    target_cluster: Option<ClusterId>,
    depends_on: Seq<GlobalId>,
    role: RoleId,
    required: Requirement,
)
    requires
        plan is CreateSources,
    ensures
        required_privileges(items, plan, target_cluster, depends_on, role).contains(required)
            <==> is_for_sources(items, plan->CreateSources_0@, role, required),
        required_privileges(items, plan, target_cluster, depends_on, role) == sources_requirements(
            items,
            plan->CreateSources_0@,
            role,
        ),
{
    lemma_sources(items, plan->CreateSources_0@, role, required);
}

/// What several sources take comes in the order of the sources.
pub proof fn law_sources_in_turn(
    items: Map<GlobalId, ItemView>,
    a: Seq<CreateSourcePlans>,
    b: Seq<CreateSourcePlans>,
    role: RoleId,
)
    ensures
        sources_requirements(items, a + b, role) == sources_requirements(items, a, role)
            + sources_requirements(items, b, role),
        a.len() == 1 ==> {
            let all = sources_requirements(items, a, role);
            &&& all.len() >= 2
            &&& asks(all[0], schema_in(a[0].plan.name.qualifiers), Privilege::Create, role)
            &&& is_for_cluster(a[0].plan.cluster_config, role, all[1])
            &&& all.skip(2) == refer(items, existing(items, a[0].depends_on@), role)
        },
    decreases b.len(),
{
    if a.len() == 1 {
        let none = Seq::<CreateSourcePlans>::empty();
        assert(a.drop_last() =~= none);
        assert(sources_requirements(items, none, role) =~= Seq::<Requirement>::empty());
        assert(a.last() == a[0]);
        assert(sources_requirements(items, a, role).skip(2) =~= refer(
            items,
            existing(items, a[0].depends_on@),
            role,
        ));
    }
    if b.len() == 0 {
        assert(a + b =~= a);
        assert(sources_requirements(items, a, role) + sources_requirements(items, b, role)
            =~= sources_requirements(items, a, role));
    } else {
        law_sources_in_turn(items, a, b.drop_last(), role);
        assert((a + b).drop_last() =~= a + b.drop_last());
        assert((a + b).last() == b.last());
        assert(sources_requirements(items, a + b, role) =~= sources_requirements(items, a, role)
            + sources_requirements(items, b, role));
    }
}

/// The privilege on the system that a plan takes, if it takes one and nothing else.
pub open spec fn system_privilege(plan: Plan) -> Option<Privilege> {
    match plan {
        Plan::CreateDatabase => Some(Privilege::CreateDb),
        Plan::CreateCluster => Some(Privilege::CreateCluster),
        Plan::CreateRole => Some(Privilege::CreateRole),
        Plan::AlterRole => Some(Privilege::CreateRole),
        Plan::GrantRole => Some(Privilege::CreateRole),
        Plan::RevokeRole => Some(Privilege::CreateRole),
        Plan::DropObjects(p) => if p.object_type == ObjectType::Role {
            Some(Privilege::CreateRole)
        } else {
            None
        },
        _ => None,
    }
}

/// To make databases or clusters, or to do anything with roles, takes the privilege for that on the
/// system as a whole, and nothing else.
pub proof fn law_system_privileges(
    items: Map<GlobalId, ItemView>,
    plan: Plan,
    target_cluster: Option<ClusterId>,
    depends_on: Seq<GlobalId>,
    role: RoleId,
)
    requires
        system_privilege(plan) is Some,
    ensures
        ({
            let all = required_privileges(items, plan, target_cluster, depends_on, role);
            &&& all.len() == 1
            &&& asks(all[0], SystemObjectId::System, system_privilege(plan)->0, role)
        }),
{
}

/// What an object lies in: a replica in its cluster, a schema in its database if it has one, an
/// item in its schema.
pub open spec fn lies_in(items: Map<GlobalId, ItemView>, id: ObjectId) -> Option<SystemObjectId> {
    match id {
        ObjectId::ClusterReplica(cluster, _) => Some(
            SystemObjectId::Object(ObjectId::Cluster(cluster)),
        ),
        ObjectId::Schema(ResolvedDatabaseSpecifier::Id(database), _) => Some(
            SystemObjectId::Object(ObjectId::Database(database)),
        ),
        ObjectId::Item(item) => Some(schema_of(items[item])),
        _ => None,
    }
}

/// Whether `required` is to have `privilege` on what `id` lies in.
pub open spec fn is_on_container(
    items: Map<GlobalId, ItemView>,
    id: ObjectId,
    privilege: Privilege,
    role: RoleId,
    required: Requirement,
) -> bool {
    lies_in(items, id) is Some && asks(required, lies_in(items, id)->0, privilege, role)
}

/// What it takes of what an object lies in.
proof fn lemma_container(
    items: Map<GlobalId, ItemView>,
    id: ObjectId,
    privilege: Privilege,
    role: RoleId,
    required: Requirement,
)
    ensures
        on_container(items, id, privilege, role).contains(required) <==> is_on_container(
            items,
            id,
            privilege,
            role,
            required,
        ),
        on_container(items, id, privilege, role).len() == (if lies_in(items, id) is Some {
            1int
        } else {
            0int
        }),
{
    let all = on_container(items, id, privilege, role);
    match lies_in(items, id) {
        Some(container) => {
            let only = (container, AclMode::only(privilege), role);
            assert(all =~= seq![only]);
            lemma_in_one(only, required);
        },
        None => {
            assert(all =~= Seq::<Requirement>::empty());
        },
    }
}

/// Whether `required` is to use what one of `ids` lies in.
pub open spec fn is_on_containers(
    items: Map<GlobalId, ItemView>,
    ids: Seq<ObjectId>,
    role: RoleId,
    required: Requirement,
) -> bool {
    exists|i: int|
        0 <= i < ids.len() && is_on_container(
            items,
            #[trigger] ids[i],
            Privilege::Usage,
            role,
            required,
        )
}

/// What it takes of what objects lie in.
proof fn lemma_containers(
    items: Map<GlobalId, ItemView>,
    ids: Seq<ObjectId>,
    role: RoleId,
    required: Requirement,
)
    ensures
        on_containers(items, ids, role).contains(required) <==> is_on_containers(
            items,
            ids,
            role,
            required,
        ),
    decreases ids.len(),
{
    if ids.len() > 0 {
        let front = ids.drop_last();
        let last = ids.last();
        lemma_containers(items, front, role, required);
        lemma_container(items, last, Privilege::Usage, role, required);
        lemma_in_either(
            on_containers(items, front, role),
            on_container(items, last, Privilege::Usage, role),
            required,
        );
        if is_on_containers(items, front, role, required) {
            let i = choose|i: int|
                0 <= i < front.len() && is_on_container(
                    items,
                    #[trigger] front[i],
                    Privilege::Usage,
                    role,
                    required,
                );
            assert(ids[i] == front[i]);
        }
        assert(ids[ids.len() - 1] == last);
        if is_on_containers(items, ids, role, required) {
            let i = choose|i: int|
                0 <= i < ids.len() && is_on_container(
                    items,
                    #[trigger] ids[i],
                    Privilege::Usage,
                    role,
                    required,
                );
            if i < front.len() {
                assert(front[i] == ids[i]);
            }
        }
    }
}

/// To drop objects other than roles takes to use what each object that the statement names lies in,
/// and nothing else. It takes that in the order of the objects, which are those that must be owned.
pub proof fn law_dropping_objects(
    items: Map<GlobalId, ItemView>,
    plan: Plan,
    target_cluster: Option<ClusterId>,
    depends_on: Seq<GlobalId>,
    role: RoleId,
    required: Requirement,
)
    requires
        plan is DropObjects,
        plan->DropObjects_0.object_type != ObjectType::Role,
    ensures
        required_privileges(items, plan, target_cluster, depends_on, role).contains(required)
            <==> is_on_containers(
            items,
            plan->DropObjects_0.referenced_ids@,
            role,
            required,
        ),
        required_privileges(items, plan, target_cluster, depends_on, role) == on_containers(
            items,
            required_ownership(plan),
            role,
        ),
{
    lemma_containers(items, plan->DropObjects_0.referenced_ids@, role, required);
}

/// What it takes of what objects lie in comes in the order of the objects.
pub proof fn law_containers_in_turn(
    items: Map<GlobalId, ItemView>,
    a: Seq<ObjectId>,
    b: Seq<ObjectId>,
    role: RoleId,
)
    ensures
        on_containers(items, a + b, role) == on_containers(items, a, role) + on_containers(
            items,
            b,
            role,
        ),
        a.len() == 1 ==> on_containers(items, a, role).len() == (if lies_in(items, a[0]) is Some {
            1int
        } else {
            0int
        }),
        a.len() == 1 && lies_in(items, a[0]) is Some ==> asks(
            on_containers(items, a, role)[0],
            lies_in(items, a[0])->0,
            Privilege::Usage,
            role,
        ),
        a.len() == 0 ==> on_containers(items, a, role).len() == 0,
    decreases b.len(),
{
    if a.len() == 1 {
        let none = Seq::<ObjectId>::empty();
        assert(a.drop_last() =~= none);
        assert(on_containers(items, none, role) =~= Seq::<Requirement>::empty());
        assert(a.last() == a[0]);
        let all = on_containers(items, a, role);
        assert(all =~= on_container(items, a[0], Privilege::Usage, role));
        lemma_container(items, a[0], Privilege::Usage, role, all[0]);
        if lies_in(items, a[0]) is Some {
            assert(all.contains(all[0]));
        }
    }
    if b.len() == 0 {
        assert(a + b =~= a);
        assert(on_containers(items, a, role) + on_containers(items, b, role) =~= on_containers(
            items,
            a,
            role,
        ));
    } else {
        law_containers_in_turn(items, a, b.drop_last(), role);
        assert((a + b).drop_last() =~= a + b.drop_last());
        assert((a + b).last() == b.last());
        assert(on_containers(items, a + b, role) =~= on_containers(items, a, role)
            + on_containers(items, b, role));
    }
}

/// To grant or revoke privileges takes to use what each object lies in on which they are granted or
/// revoked, and nothing else. It takes that in the order of the objects, which are those that must
/// be owned.
pub proof fn law_granting_privileges(
    items: Map<GlobalId, ItemView>,
    plan: Plan,
    updates: Seq<UpdatePrivilege>,
    target_cluster: Option<ClusterId>,
    depends_on: Seq<GlobalId>,
    role: RoleId,
    required: Requirement,
)
    requires
        updates_of(plan) == Some(updates),
    ensures
        required_privileges(items, plan, target_cluster, depends_on, role).contains(required)
            <==> exists|id: ObjectId| #[trigger]
            is_updated(updates, id) && is_on_container(
                items,
                id,
                Privilege::Usage,
                role,
                required,
            ),
        required_privileges(items, plan, target_cluster, depends_on, role) == on_containers(
            items,
            required_ownership(plan),
            role,
        ),
{
    let ids = target_objects(updates);
    lemma_containers(items, ids, role, required);
    if is_on_containers(items, ids, role, required) {
        let i = choose|i: int|
            0 <= i < ids.len() && is_on_container(
                items,
                #[trigger] ids[i],
                Privilege::Usage,
                role,
                required,
            );
        assert(ids.contains(ids[i]));
        lemma_targets(updates, ids[i]);
        assert(is_updated(updates, ids[i]));
    }
    if exists|id: ObjectId| #[trigger]
        is_updated(updates, id) && is_on_container(items, id, Privilege::Usage, role, required) {
        let id = choose|id: ObjectId| #[trigger]
            is_updated(updates, id) && is_on_container(
                items,
                id,
                Privilege::Usage,
                role,
                required,
            );
        lemma_targets(updates, id);
        assert(ids[ids.index_of(id)] == id);
    }
}

/// To alter an item takes to make something in its schema, and to give an object another owner
/// takes to make something in what it lies in; and nothing else.
pub proof fn law_altering_objects(
    items: Map<GlobalId, ItemView>,
    plan: Plan,
    target_cluster: Option<ClusterId>,
    depends_on: Seq<GlobalId>,
    role: RoleId,
    required: Requirement,
)
    ensures
        altered_item(plan) matches Some(id) ==> (required_privileges(
            items,
            plan,
            target_cluster,
            depends_on,
            role,
        ).contains(required) <==> asks(
            required,
            schema_of(items[id]),
            Privilege::Create,
            role,
        )),
        plan matches Plan::AlterOwner(p) ==> (required_privileges(
            items,
            plan,
            target_cluster,
            depends_on,
            role,
        ).contains(required) <==> is_on_container(items, p.id, Privilege::Create, role, required)),
{
    let all = required_privileges(items, plan, target_cluster, depends_on, role);
    if let Some(id) = altered_item(plan) {
        let only = (schema_of(items[id]), AclMode::only(Privilege::Create), role);
        assert(all =~= seq![only]);
        lemma_in_one(only, required);
    }
    if let Plan::AlterOwner(p) = plan {
        lemma_container(items, p.id, Privilege::Create, role, required);
    }
}

/// To make a schema takes to make something in its database if it has one, and to make a replica
/// takes to make something on its cluster; and nothing else.
pub proof fn law_making_schemas_and_replicas(
    items: Map<GlobalId, ItemView>,
    plan: Plan,
    target_cluster: Option<ClusterId>,
    depends_on: Seq<GlobalId>,
    role: RoleId,
)
    ensures
        ({
            let all = required_privileges(items, plan, target_cluster, depends_on, role);
            &&& plan matches Plan::CreateSchema(p) ==> (match p.database_spec {
                ResolvedDatabaseSpecifier::Ambient => all.len() == 0,
                ResolvedDatabaseSpecifier::Id(id) => all.len() == 1 && asks(
                    all[0],
                    SystemObjectId::Object(ObjectId::Database(id)),
                    Privilege::Create,
                    role,
                ),
            })
            &&& plan matches Plan::CreateClusterReplica(p) ==> all.len() == 1 && asks(
                all[0],
                SystemObjectId::Object(ObjectId::Cluster(p.cluster_id)),
                Privilege::Create,
                role,
            )
        }),
{
}

/// To see how an item is made takes to use its schema; to validate a connection takes to use it,
/// too, and to copy into a table to insert into it. Nothing else is taken.
pub proof fn law_using_items(
    items: Map<GlobalId, ItemView>,
    plan: Plan,
    target_cluster: Option<ClusterId>,
    depends_on: Seq<GlobalId>,
    role: RoleId,
)
    ensures
        ({
            let all = required_privileges(items, plan, target_cluster, depends_on, role);
            &&& plan matches Plan::ShowCreate(p) ==> all.len() == 1 && asks(
                all[0],
                schema_of(items[p.id]),
                Privilege::Usage,
                role,
            )
            &&& plan matches Plan::ValidateConnection(p) ==> all.len() == 2 && asks(
                all[0],
                schema_of(items[p.id]),
                Privilege::Usage,
                role,
            ) && asks(
                all[1],
                SystemObjectId::Object(ObjectId::Item(p.id)),
                Privilege::Usage,
                role,
            )
            &&& plan matches Plan::CopyFrom(p) ==> all.len() == 2 && asks(
                all[0],
                schema_of(items[p.id]),
                Privilege::Usage,
                role,
            ) && asks(
                all[1],
                SystemObjectId::Object(ObjectId::Item(p.id)),
                Privilege::Insert,
                role,
            )
        }),
{
}

/// Whether `required` is to use the database of one of `objects` for which a schema is given.
pub open spec fn is_for_defaults(
    objects: Seq<DefaultPrivilegeObject>,
    role: RoleId,
    required: Requirement,
) -> bool {
    exists|i: int|
        0 <= i < objects.len() && (#[trigger] objects[i]).database_id is Some
            && objects[i].schema_id is Some && asks(
            required,
            SystemObjectId::Object(ObjectId::Database(objects[i].database_id->0)),
            Privilege::Usage,
            role,
        )
}

/// What altering default privileges takes.
proof fn lemma_defaults(
    objects: Seq<DefaultPrivilegeObject>,
    role: RoleId,
    required: Requirement,
)
    ensures
        default_requirements(objects, role).contains(required) <==> is_for_defaults(
            objects,
            role,
            required,
        ),
    decreases objects.len(),
{
    if objects.len() > 0 {
        let front = objects.drop_last();
        let last = objects.last();
        let all = default_requirements(objects, role);
        let before = default_requirements(front, role);
        lemma_defaults(front, role, required);
        let own = all.skip(before.len() as int);
        assert(all =~= before + own);
        lemma_in_either(before, own, required);
        if last.database_id is Some && last.schema_id is Some {
            let only = (
                SystemObjectId::Object(ObjectId::Database(last.database_id->0)),
                AclMode::only(Privilege::Usage),
                role,
            );
            assert(own =~= seq![only]);
            lemma_in_one(only, required);
        } else {
            assert(own =~= Seq::<Requirement>::empty());
        }
        if is_for_defaults(front, role, required) {
            let i = choose|i: int|
                0 <= i < front.len() && (#[trigger] front[i]).database_id is Some
                    && front[i].schema_id is Some && asks(
                    required,
                    SystemObjectId::Object(ObjectId::Database(front[i].database_id->0)),
                    Privilege::Usage,
                    role,
                );
            assert(objects[i] == front[i]);
        }
        assert(objects[objects.len() - 1] == last);
        if is_for_defaults(objects, role, required) {
            let i = choose|i: int|
                0 <= i < objects.len() && (#[trigger] objects[i]).database_id is Some
                    && objects[i].schema_id is Some && asks(
                    required,
                    SystemObjectId::Object(ObjectId::Database(objects[i].database_id->0)),
                    Privilege::Usage,
                    role,
                );
            if i < front.len() {
                assert(front[i] == objects[i]);
            }
        }
    }
}

/// To alter default privileges takes to use the database of every schema for which they are, and
/// nothing else.
pub proof fn law_altering_default_privileges(
    items: Map<GlobalId, ItemView>,
    plan: Plan,
    target_cluster: Option<ClusterId>,
    depends_on: Seq<GlobalId>,
    role: RoleId,
    required: Requirement,
)
    requires
        plan is AlterDefaultPrivileges,
    ensures
        required_privileges(items, plan, target_cluster, depends_on, role).contains(required)
            <==> is_for_defaults(
            plan->AlterDefaultPrivileges_0.privilege_objects@,
            role,
            required,
        ),
        required_privileges(items, plan, target_cluster, depends_on, role) == default_requirements(
            plan->AlterDefaultPrivileges_0.privilege_objects@,
            role,
        ),
{
    lemma_defaults(plan->AlterDefaultPrivileges_0.privilege_objects@, role, required);
}

/// What altering default privileges takes comes in the order of the objects.
pub proof fn law_defaults_in_turn(
    a: Seq<DefaultPrivilegeObject>,
    b: Seq<DefaultPrivilegeObject>,
    role: RoleId,
)
    ensures
        default_requirements(a + b, role) == default_requirements(a, role) + default_requirements(
            b,
            role,
        ),
        default_requirements(a, role).len() <= a.len(),
        a.len() == 1 ==> (match (a[0].database_id, a[0].schema_id) {
            (Some(database), Some(_)) => default_requirements(a, role).len() == 1 && asks(
                default_requirements(a, role)[0],
                SystemObjectId::Object(ObjectId::Database(database)),
                Privilege::Usage,
                role,
            ),
            _ => default_requirements(a, role).len() == 0,
        }),
    decreases b.len(), a.len(),
{
    if a.len() == 1 {
        let none = Seq::<DefaultPrivilegeObject>::empty();
        assert(a.drop_last() =~= none);
        assert(default_requirements(none, role) =~= Seq::<Requirement>::empty());
        assert(a.last() == a[0]);
    }
    if a.len() > 0 {
        law_defaults_in_turn(a.drop_last(), Seq::empty(), role);
    }
    if b.len() == 0 {
        assert(a + b =~= a);
        assert(default_requirements(a, role) + default_requirements(b, role)
            =~= default_requirements(a, role));
    } else {
        law_defaults_in_turn(a, b.drop_last(), role);
        assert((a + b).drop_last() =~= a + b.drop_last());
        assert((a + b).last() == b.last());
        assert(default_requirements(a + b, role) =~= default_requirements(a, role)
            + default_requirements(b, role));
    }
}

/// The item that a plan writes to, if it writes to one.
pub open spec fn written(plan: Plan) -> Option<GlobalId> {
    match plan {
        Plan::Insert(p) => Some(p.id),
        Plan::ReadThenWrite(p) => Some(p.id),
        _ => None,
    }
}

/// The privilege that writing as a plan does takes.
pub open spec fn privilege_to_write(plan: Plan) -> Privilege {
    match plan {
        Plan::ReadThenWrite(p) => match p.kind {
            MutationKind::Insert => Privilege::Insert,
            MutationKind::Update => Privilege::Update,
            MutationKind::Delete => Privilege::Delete,
        },
        _ => Privilege::Insert,
    }
}

/// Whether a plan refers to a column of the item that it writes to, in what it assigns or returns.
pub open spec fn refers_to_column(plan: Plan) -> bool {
    match plan {
        Plan::Insert(p) => exists|i: int|
            0 <= i < p.returning@.len() && (#[trigger] p.returning@[i]).contains_column,
        Plan::ReadThenWrite(p) => {
            ||| exists|i: int|
                0 <= i < p.assignments@.len() && (#[trigger] p.assignments@[i]).contains_column
            ||| exists|i: int|
                0 <= i < p.returning@.len() && (#[trigger] p.returning@[i]).contains_column
        },
        _ => false,
    }
}

/// The items that a plan reads for what it writes, in their order.
pub open spec fn read_for_write(plan: Plan) -> Seq<GlobalId> {
    match plan {
        Plan::Insert(p) => in_order(p.values.depends_on@),
        Plan::ReadThenWrite(p) => in_order(p.selection.depends_on@),
        _ => seq![],
    }
}

/// Whether what a plan writes or returns is evaluated on a cluster: always unless it is constant,
/// and what an insertion returns even then.
pub open spec fn writes_on_cluster(plan: Plan) -> bool {
    match plan {
        Plan::Insert(p) => !p.values.is_const || p.returning@.len() > 0,
        Plan::ReadThenWrite(p) => !p.selection.is_const,
        _ => false,
    }
}

/// What had been looked at, on behalf of the role, before what is read for a write: the schema of
/// the item that is written to, and the item itself if the plan refers to a column of it.
pub open spec fn seen_by_write(
    items: Map<GlobalId, ItemView>,
    plan: Plan,
    role: RoleId,
) -> Set<(ObjectId, RoleId)> {
    let id = written(plan)->0;
    let schema = ObjectId::Schema(
        items[id].qualifiers.database_spec,
        items[id].qualifiers.schema_spec,
    );
    if refers_to_column(plan) {
        set![(schema, role), (ObjectId::Item(id), role)]
    } else {
        set![(schema, role)]
    }
}

/// The items on which something is required.
pub open spec fn listed_items(required: Seq<Requirement>) -> Set<GlobalId> {
    Set::new(
        |id: GlobalId|
            exists|i: int|
                0 <= i < required.len() && (#[trigger] required[i]).0 == SystemObjectId::Object(
                    ObjectId::Item(id),
                ),
    )
}

/// A write takes, in this order: to use the schema of the item that is written to, the privilege to
/// write to it, the privilege to select from it if the plan refers to a column of it, what reading
/// for the write takes beyond that, to use what the plan refers to and is not listed so far, and to
/// use the cluster that it is evaluated on.
pub proof fn law_writes_in_turn(
    items: Map<GlobalId, ItemView>,
    plan: Plan,
    target_cluster: Option<ClusterId>,
    depends_on: Seq<GlobalId>,
    role: RoleId,
)
    requires
        written(plan) is Some,
    ensures
        ({
            let id = written(plan)->0;
            let object = SystemObjectId::Object(ObjectId::Item(id));
            let all = required_privileges(items, plan, target_cluster, depends_on, role);
            let own = if refers_to_column(plan) {
                3int
            } else {
                2int
            };
            let read = reads(
                items,
                seq![ReadFrame { ids: read_for_write(plan), role }],
                seen_by_write(items, plan, role),
            ).required;
            let listed = own + read.len();
            let used = usage_requirements(
                items,
                depends_on.to_set(),
                role,
                listed_items(all.take(listed)),
            );
            let on_cluster = writes_on_cluster(plan) && target_cluster is Some;
            &&& all.len() == listed + used.len() + (if on_cluster {
                1int
            } else {
                0int
            })
            &&& asks(all[0], schema_of(items[id]), Privilege::Usage, role)
            &&& asks(all[1], object, privilege_to_write(plan), role)
            &&& refers_to_column(plan) ==> asks(all[2], object, Privilege::Select, role)
            &&& all.subrange(own, listed) == read
            &&& all.subrange(listed, listed + used.len()) == used
            &&& on_cluster ==> asks(
                all.last(),
                SystemObjectId::Object(ObjectId::Cluster(target_cluster->0)),
                Privilege::Usage,
                role,
            )
        }),
{
    let id = written(plan)->0;
    let column = refers_to_column(plan);
    let source = match plan {
        Plan::Insert(p) => p.values.depends_on@,
        Plan::ReadThenWrite(p) => p.selection.depends_on@,
        _ => Set::empty(),
    };
    let all = required_privileges(items, plan, target_cluster, depends_on, role);
    let target = write_target(items, id, privilege_to_write(plan), column, role);
    let seen = write_seen(items, id, column, role);
    assert(seen =~= seen_by_write(items, plan, role));
    let read = reads(items, seq![ReadFrame { ids: read_for_write(plan), role }], seen).required;
    let first = write_and_read(items, id, privilege_to_write(plan), column, source, role);
    assert(first == target + read);
    let used = usage_requirements(items, depends_on.to_set(), role, items_of(first));
    let on_cluster = writes_on_cluster(plan) && target_cluster is Some;
    let cluster: Seq<Requirement> = if on_cluster {
        seq![
            (
                SystemObjectId::Object(ObjectId::Cluster(target_cluster->0)),
                AclMode::only(Privilege::Usage),
                role,
            ),
        ]
    } else {
        seq![]
    };
    assert(all =~= (first + used) + cluster);
    assert(all.take(first.len() as int) =~= first);
    assert(items_of(first) =~= listed_items(first));
    assert(all.subrange(target.len() as int, first.len() as int) =~= read);
    assert(all.subrange(first.len() as int, (first.len() + used.len()) as int) =~= used);
}

/// Whether something is required on a cluster.
pub open spec fn is_on_cluster(required: Requirement) -> bool {
    required.0 matches SystemObjectId::Object(ObjectId::Cluster(_))
}

/// Neither reading nor referring to items takes anything on a cluster.
proof fn lemma_off_cluster(
    items: Map<GlobalId, ItemView>,
    ids: Seq<GlobalId>,
    depends_on: Seq<GlobalId>,
    role: RoleId,
    seen: Set<(ObjectId, RoleId)>,
    exempt: Set<GlobalId>,
    required: Requirement,
)
    requires
        items.dom().finite(),
        reads(items, seq![ReadFrame { ids, role }], seen).required.contains(required)
            || usage_requirements(items, depends_on.to_set(), role, exempt).contains(required),
    ensures
        !is_on_cluster(required),
{
    if reads(items, seq![ReadFrame { ids, role }], seen).required.contains(required) {
        law_reads_take_no_more(items, ids, role, seen, required);
    } else {
        law_referring_to_items(items, depends_on, role, exempt, required, 0, 0);
    }
}

/// What is in a list is at its start, in one of two parts that follow, or at its end.
proof fn lemma_parts(
    all: Seq<Requirement>,
    own: int,
    read: Seq<Requirement>,
    used: Seq<Requirement>,
    i: int,
)
    requires
        0 <= own,
        own + read.len() + used.len() <= all.len(),
        all.subrange(own, own + read.len()) == read,
        all.subrange(own + read.len(), own + read.len() + used.len()) == used,
        own <= i < own + read.len() + used.len(),
    ensures
        read.contains(all[i]) || used.contains(all[i]),
{
    if i < own + read.len() {
        assert(all.subrange(own, own + read.len())[i - own] == all[i]);
        assert(read[i - own] == all[i]);
    } else {
        let k = i - own - read.len();
        assert(all.subrange(own + read.len(), own + read.len() + used.len())[k] == all[i]);
        assert(used[k] == all[i]);
    }
}

/// A write takes to use the cluster that it is to run on exactly if what it writes is not constant
/// or if it is an insertion that returns something; and it takes nothing else on any cluster.
pub proof fn law_writes_use_their_cluster(
    items: Map<GlobalId, ItemView>,
    plan: Plan,
    target_cluster: Option<ClusterId>,
    depends_on: Seq<GlobalId>,
    role: RoleId,
    cluster: ClusterId,
    required: Requirement,
)
    requires
        items.dom().finite(),
        written(plan) is Some,
        required.0 == SystemObjectId::Object(ObjectId::Cluster(cluster)),
    ensures
        required_privileges(items, plan, target_cluster, depends_on, role).contains(required) <==> {
            &&& target_cluster == Some(cluster)
            &&& writes_on_cluster(plan)
            &&& asks(
                required,
                SystemObjectId::Object(ObjectId::Cluster(cluster)),
                Privilege::Usage,
                role,
            )
        },
{
    law_writes_in_turn(items, plan, target_cluster, depends_on, role);
    let all = required_privileges(items, plan, target_cluster, depends_on, role);
    let on_cluster = writes_on_cluster(plan) && target_cluster is Some;
    let own = if refers_to_column(plan) {
        3int
    } else {
        2int
    };
    let ids = read_for_write(plan);
    let seen = seen_by_write(items, plan, role);
    let read = reads(items, seq![ReadFrame { ids, role }], seen).required;
    let exempt = listed_items(all.take((own + read.len()) as int));
    let used = usage_requirements(items, depends_on.to_set(), role, exempt);
    if all.contains(required) {
        let i = all.index_of(required);
        if own <= i < own + read.len() + used.len() {
            lemma_parts(all, own, read, used, i);
            lemma_off_cluster(items, ids, depends_on, role, seen, exempt, required);
        }
    }
    if on_cluster {
        assert(all[all.len() - 1] == all.last());
        assert(all.contains(all.last()));
    }
}

/// Whether `id` is referred to and there to be used, but neither written to nor read, by anyone.
pub open spec fn is_only_referred_to(
    items: Map<GlobalId, ItemView>,
    plan: Plan,
    depends_on: Seq<GlobalId>,
    role: RoleId,
    id: GlobalId,
) -> bool {
    &&& depends_on.contains(id)
    &&& is_used(items[id])
    &&& Some(id) != written(plan)
    &&& !(items.contains_key(id) && exists|reader: RoleId| #[trigger]
        is_read(items, read_for_write(plan), role, id, reader))
}

/// A write takes to use the schema of the item that is written to, the privilege to write to it,
/// the privilege to select from it if the plan refers to a column of it, that everyone may read
/// what is read for it on their behalf, to use what is only referred to, and to use the cluster
/// that it is evaluated on; and nothing else. That holds as long as the item that is written to is
/// not itself read as anything but a table or the like where a column of it is referred to.
pub proof fn law_writes_take(
    items: Map<GlobalId, ItemView>,
    plan: Plan,
    target_cluster: Option<ClusterId>,
    depends_on: Seq<GlobalId>,
    role: RoleId,
    required: Requirement,
)
    requires
        items.dom().finite(),
        written(plan) is Some,
        refers_to_column(plan) && is_read(
            items,
            read_for_write(plan),
            role,
            written(plan)->0,
            role,
        ) ==> is_selected(items[written(plan)->0]),
    ensures
        ({
            let id = written(plan)->0;
            let object = SystemObjectId::Object(ObjectId::Item(id));
            required_privileges(items, plan, target_cluster, depends_on, role).contains(required)
                <==> {
                ||| asks(required, schema_of(items[id]), Privilege::Usage, role)
                ||| asks(required, object, privilege_to_write(plan), role)
                ||| refers_to_column(plan) && asks(required, object, Privilege::Select, role)
                ||| is_for_read(items, read_for_write(plan), role, required)
                ||| exists|used: GlobalId| #[trigger]
                    is_only_referred_to(items, plan, depends_on, role, used) && asks(
                        required,
                        SystemObjectId::Object(ObjectId::Item(used)),
                        Privilege::Usage,
                        role,
                    )
                ||| target_cluster is Some && writes_on_cluster(plan) && asks(
                    required,
                    SystemObjectId::Object(ObjectId::Cluster(target_cluster->0)),
                    Privilege::Usage,
                    role,
                )
            }
        }),
{
    law_writes_in_turn(items, plan, target_cluster, depends_on, role);
    let all = required_privileges(items, plan, target_cluster, depends_on, role);
    let listed = listed_len(items, plan, role);
    let first = all.take(listed);
    let exempt = listed_items(first);
    let used = usage_requirements(items, depends_on.to_set(), role, exempt);
    let rest = all.skip((listed + used.len()) as int);
    assert(used =~= all.subrange(listed, (listed + used.len()) as int));
    assert(all =~= (first + used) + rest);
    lemma_in_either(first + used, rest, required);
    lemma_in_either(first, used, required);
    lemma_written_and_read(items, plan, target_cluster, depends_on, role, required);
    lemma_only_referred_to(items, plan, target_cluster, depends_on, role, required);
    if writes_on_cluster(plan) && target_cluster is Some {
        let last = all.last();
        assert(rest =~= seq![last]);
        lemma_in_one(last, required);
    } else {
        assert(rest =~= Seq::<Requirement>::empty());
    }
}

/// How many requirements a write takes before those for what is only referred to.
spec fn listed_len(items: Map<GlobalId, ItemView>, plan: Plan, role: RoleId) -> int {
    (if refers_to_column(plan) {
        3int
    } else {
        2int
    }) + reads(
        items,
        seq![ReadFrame { ids: read_for_write(plan), role }],
        seen_by_write(items, plan, role),
    ).required.len()
}

/// Whether the item that a plan writes to is read as a table or the like, if at all, where a column
/// of it is referred to.
spec fn is_plainly_written(items: Map<GlobalId, ItemView>, plan: Plan, role: RoleId) -> bool {
    refers_to_column(plan) && is_read(items, read_for_write(plan), role, written(plan)->0, role)
        ==> is_selected(items[written(plan)->0])
}

/// What a write takes for the item that is written to and for what is read.
proof fn lemma_written_and_read(
    items: Map<GlobalId, ItemView>,
    plan: Plan,
    target_cluster: Option<ClusterId>,
    depends_on: Seq<GlobalId>,
    role: RoleId,
    required: Requirement,
)
    requires
        items.dom().finite(),
        written(plan) is Some,
        is_plainly_written(items, plan, role),
    ensures
        ({
            let id = written(plan)->0;
            let object = SystemObjectId::Object(ObjectId::Item(id));
            required_privileges(items, plan, target_cluster, depends_on, role).take(
                listed_len(items, plan, role),
            ).contains(required) <==> {
                ||| asks(required, schema_of(items[id]), Privilege::Usage, role)
                ||| asks(required, object, privilege_to_write(plan), role)
                ||| refers_to_column(plan) && asks(required, object, Privilege::Select, role)
                ||| is_for_read(items, read_for_write(plan), role, required)
            }
        }),
{
    law_writes_in_turn(items, plan, target_cluster, depends_on, role);
    let ids = read_for_write(plan);
    let all = required_privileges(items, plan, target_cluster, depends_on, role);
    let own = if refers_to_column(plan) {
        3int
    } else {
        2int
    };
    let seen = seen_by_write(items, plan, role);
    let read = reads(items, seq![ReadFrame { ids, role }], seen).required;
    let listed = listed_len(items, plan, role);
    let target = all.take(own);
    assert(all.take(listed) =~= target + all.subrange(own, listed));
    lemma_in_either(target, read, required);
    if target.contains(required) {
        assert(all[target.index_of(required)] == required);
    }
    assert(target[0] == all[0] && target[1] == all[1]);
    if refers_to_column(plan) {
        assert(target[2] == all[2]);
    }
    if read.contains(required) {
        law_reads_take_no_more(items, ids, role, seen, required);
    }
    if is_for_read(items, ids, role, required) {
        lemma_reads_listed(items, plan, role, required);
    }
}

/// What a write takes for what is only referred to.
proof fn lemma_only_referred_to(
    items: Map<GlobalId, ItemView>,
    plan: Plan,
    target_cluster: Option<ClusterId>,
    depends_on: Seq<GlobalId>,
    role: RoleId,
    required: Requirement,
)
    requires
        items.dom().finite(),
        written(plan) is Some,
        is_plainly_written(items, plan, role),
    ensures
        usage_requirements(
            items,
            depends_on.to_set(),
            role,
            listed_items(
                required_privileges(items, plan, target_cluster, depends_on, role).take(
                    listed_len(items, plan, role),
                ),
            ),
        ).contains(required) <==> exists|used: GlobalId| #[trigger]
            is_only_referred_to(items, plan, depends_on, role, used) && asks(
                required,
                SystemObjectId::Object(ObjectId::Item(used)),
                Privilege::Usage,
                role,
            ),
{
    let first = required_privileges(items, plan, target_cluster, depends_on, role).take(
        listed_len(items, plan, role),
    );
    let exempt = listed_items(first);
    law_referring_to_items(items, depends_on, role, exempt, required, 0, 0);
    if usage_requirements(items, depends_on.to_set(), role, exempt).contains(required) {
        let x = choose|x: GlobalId| #[trigger]
            depends_on.contains(x) && !exempt.contains(x) && is_used(items[x]) && asks(
                required,
                SystemObjectId::Object(ObjectId::Item(x)),
                Privilege::Usage,
                role,
            );
        lemma_exempt(items, plan, target_cluster, depends_on, role, x);
        assert(is_only_referred_to(items, plan, depends_on, role, x));
    }
    if exists|x: GlobalId| #[trigger]
        is_only_referred_to(items, plan, depends_on, role, x) && asks(
            required,
            SystemObjectId::Object(ObjectId::Item(x)),
            Privilege::Usage,
            role,
        ) {
        let x = choose|x: GlobalId| #[trigger]
            is_only_referred_to(items, plan, depends_on, role, x) && asks(
                required,
                SystemObjectId::Object(ObjectId::Item(x)),
                Privilege::Usage,
                role,
            );
        lemma_exempt(items, plan, target_cluster, depends_on, role, x);
        assert(depends_on.contains(x));
    }
}

/// Of what is there to be used, what is written to or read is listed, and nothing else.
proof fn lemma_exempt(
    items: Map<GlobalId, ItemView>,
    plan: Plan,
    target_cluster: Option<ClusterId>,
    depends_on: Seq<GlobalId>,
    role: RoleId,
    id: GlobalId,
)
    requires
        items.dom().finite(),
        written(plan) is Some,
        is_plainly_written(items, plan, role),
        is_used(items[id]),
    ensures
        listed_items(
            required_privileges(items, plan, target_cluster, depends_on, role).take(
                listed_len(items, plan, role),
            ),
        ).contains(id) <==> Some(id) == written(plan) || (items.contains_key(id)
            && exists|reader: RoleId| #[trigger]
            is_read(items, read_for_write(plan), role, id, reader)),
{
    law_writes_in_turn(items, plan, target_cluster, depends_on, role);
    let ids = read_for_write(plan);
    let first = required_privileges(items, plan, target_cluster, depends_on, role).take(
        listed_len(items, plan, role),
    );
    let object = SystemObjectId::Object(ObjectId::Item(id));
    if Some(id) == written(plan) {
        assert(first[1].0 == object);
    }
    if items.contains_key(id) && exists|reader: RoleId| #[trigger]
        is_read(items, ids, role, id, reader) {
        let reader = choose|reader: RoleId| #[trigger] is_read(items, ids, role, id, reader);
        let q = (object, AclMode::only(Privilege::Usage), reader);
        assert(is_on_item(items, q, id, reader));
        assert(is_for(items, q, id, reader));
        assert(is_for_read(items, ids, role, q));
        lemma_written_and_read(items, plan, target_cluster, depends_on, role, q);
        assert(first[first.index_of(q)].0 == object);
    }
    if listed_items(first).contains(id) && Some(id) != written(plan) {
        let i = choose|i: int| 0 <= i < first.len() && (#[trigger] first[i]).0 == object;
        let q = first[i];
        assert(first.contains(q));
        lemma_written_and_read(items, plan, target_cluster, depends_on, role, q);
        let (x, reader) = choose|x: GlobalId, reader: RoleId| #[trigger]
            is_read(items, ids, role, x, reader) && items.contains_key(x) && is_for(
                items,
                q,
                x,
                reader,
            );
        assert(x == id);
    }
}

/// What a read takes is taken with the item that is written to, or beyond that.
proof fn lemma_reads_listed(
    items: Map<GlobalId, ItemView>,
    plan: Plan,
    role: RoleId,
    required: Requirement,
)
    requires
        items.dom().finite(),
        written(plan) is Some,
        refers_to_column(plan) && is_read(
            items,
            read_for_write(plan),
            role,
            written(plan)->0,
            role,
        ) ==> is_selected(items[written(plan)->0]),
        is_for_read(items, read_for_write(plan), role, required),
    ensures
        ({
            let id = written(plan)->0;
            ||| asks(required, schema_of(items[id]), Privilege::Usage, role)
            ||| refers_to_column(plan) && asks(
                required,
                SystemObjectId::Object(ObjectId::Item(id)),
                Privilege::Select,
                role,
            )
            ||| reads(
                items,
                seq![ReadFrame { ids: read_for_write(plan), role }],
                seen_by_write(items, plan, role),
            ).required.contains(required)
        }),
{
    let ids = read_for_write(plan);
    let seen = seen_by_write(items, plan, role);
    let (x, reader) = choose|x: GlobalId, reader: RoleId| #[trigger]
        is_read(items, ids, role, x, reader) && items.contains_key(x) && is_for(
            items,
            required,
            x,
            reader,
        );
    law_reads_take_all(items, ids, role, seen, x, reader);
}

/// Whether a catalog knows all that a read of `ids` on behalf of `role` reads, directly or through
/// views.
pub open spec fn knows_what_is_read(
    items: Map<GlobalId, ItemView>,
    ids: Seq<GlobalId>,
    role: RoleId,
) -> bool {
    forall|id: GlobalId, reader: RoleId| #[trigger]
        is_read(items, ids, role, id, reader) ==> items.contains_key(id)
}

/// Whether a catalog knows all of `ids`.
pub open spec fn knows_each(items: Map<GlobalId, ItemView>, ids: Seq<GlobalId>) -> bool {
    forall|id: GlobalId| #[trigger] ids.contains(id) ==> items.contains_key(id)
}

/// All of some items are known exactly if each of them is.
proof fn lemma_knows_each(items: Map<GlobalId, ItemView>, ids: Seq<GlobalId>)
    ensures
        all_known(items, ids) == knows_each(items, ids),
{
    if all_known(items, ids) {
        assert forall|id: GlobalId| #[trigger] ids.contains(id) implies items.contains_key(id) by {
            assert(ids[ids.index_of(id)] == id);
        };
    } else {
        let i = choose|i: int| 0 <= i < ids.len() && !items.contains_key(#[trigger] ids[i]);
        assert(ids.contains(ids[i]));
    }
}

/// A read finds all known exactly if all is known that is read.
proof fn lemma_read_known(items: Map<GlobalId, ItemView>, ids: Seq<GlobalId>, role: RoleId)
    requires
        items.dom().finite(),
    ensures
        read_known(items, ids, role) == knows_what_is_read(items, ids, role),
{
    law_reads_look_up_what_is_read(items, ids, role, Set::empty());
}

/// For a query, and for making a sink, exactly what is read is looked up, directly or through
/// views.
pub proof fn law_reads_are_looked_up(
    items: Map<GlobalId, ItemView>,
    plan: Plan,
    depends_on: Seq<GlobalId>,
    role: RoleId,
)
    requires
        items.dom().finite(),
    ensures
        plan is Select || plan is Subscribe || plan is Explain ==> plan_known(
            items,
            plan,
            depends_on,
            role,
        ) == knows_what_is_read(items, depends_on, role),
        plan matches Plan::CreateSink(p) ==> plan_known(items, plan, depends_on, role)
            == knows_what_is_read(items, seq![p.sink.from], role),
{
    lemma_read_known(items, depends_on, role);
    if let Plan::CreateSink(p) = plan {
        lemma_read_known(items, seq![p.sink.from], role);
    }
}

/// For a write, exactly what is written to, what is referred to and what is read for it are looked
/// up, as long as the item that is written to is not itself read as a view where a column of it is
/// referred to.
pub proof fn law_writes_are_looked_up(
    items: Map<GlobalId, ItemView>,
    plan: Plan,
    depends_on: Seq<GlobalId>,
    role: RoleId,
)
    requires
        items.dom().finite(),
        written(plan) is Some,
        refers_to_column(plan) && is_read(
            items,
            read_for_write(plan),
            role,
            written(plan)->0,
            role,
        ) ==> !has_query(items[written(plan)->0]),
    ensures
        plan_known(items, plan, depends_on, role) == (items.contains_key(written(plan)->0)
            && knows_each(items, depends_on) && knows_what_is_read(
            items,
            read_for_write(plan),
            role,
        )),
{
    lemma_knows_each(items, depends_on);
    lemma_write_looks_up(items, plan, role);
}

/// For a write, the item that is written to is looked up, what is referred to, and what is read for
/// it beyond what was looked at for the item that is written to.
pub proof fn law_writes_look_up_in_turn(
    items: Map<GlobalId, ItemView>,
    plan: Plan,
    depends_on: Seq<GlobalId>,
    role: RoleId,
)
    requires
        written(plan) is Some,
    ensures
        plan_known(items, plan, depends_on, role) == (items.contains_key(written(plan)->0)
            && knows_each(items, depends_on) && reads(
            items,
            seq![ReadFrame { ids: read_for_write(plan), role }],
            seen_by_write(items, plan, role),
        ).known),
{
    lemma_knows_each(items, depends_on);
    assert(write_seen(items, written(plan)->0, refers_to_column(plan), role) =~= seen_by_write(
        items,
        plan,
        role,
    ));
}

/// For other plans, exactly these items are looked up: what a new item refers to; what is altered,
/// shown, validated or copied into; and the items that are dropped, given another owner, or on
/// which privileges are granted or revoked.
pub proof fn law_objects_are_looked_up(
    items: Map<GlobalId, ItemView>,
    plan: Plan,
    depends_on: Seq<GlobalId>,
    role: RoleId,
)
    ensures
        made_in(plan) is Some ==> plan_known(items, plan, depends_on, role) == knows_each(
            items,
            depends_on,
        ),
        altered_item(plan) matches Some(id) ==> plan_known(items, plan, depends_on, role)
            == items.contains_key(id),
        plan matches Plan::ShowCreate(p) ==> plan_known(items, plan, depends_on, role)
            == items.contains_key(p.id),
        plan matches Plan::ValidateConnection(p) ==> plan_known(items, plan, depends_on, role)
            == items.contains_key(p.id),
        plan matches Plan::CopyFrom(p) ==> plan_known(items, plan, depends_on, role)
            == items.contains_key(p.id),
        plan matches Plan::AlterOwner(p) ==> plan_known(items, plan, depends_on, role) == (p.id
            matches ObjectId::Item(id) ==> items.contains_key(id)),
        plan matches Plan::DropObjects(p) ==> plan_known(items, plan, depends_on, role) == (
        p.object_type == ObjectType::Role || forall|i: int|
            0 <= i < p.referenced_ids@.len() ==> (#[trigger] p.referenced_ids@[i]
                matches ObjectId::Item(id) ==> items.contains_key(id))),
        updates_of(plan) matches Some(updates) ==> plan_known(items, plan, depends_on, role)
            == forall|id: GlobalId| #[trigger]
            is_updated(updates, ObjectId::Item(id)) ==> items.contains_key(id),
        takes_no_privilege(plan) || plan is CreateSources || plan is CreateSecret || plan
            is CreateSchema || plan is CreateClusterReplica || plan is AlterDefaultPrivileges
            || system_privilege(plan) is Some ==> plan_known(items, plan, depends_on, role),
{
    lemma_knows_each(items, depends_on);
    if let Plan::AlterOwner(p) = plan {
        assert(seq![p.id][0] == p.id);
    }
    if let Some(updates) = updates_of(plan) {
        lemma_targets_known(items, updates);
    }
}

/// The items that are updated are known exactly if each of them is.
proof fn lemma_targets_known(items: Map<GlobalId, ItemView>, updates: Seq<UpdatePrivilege>)
    ensures
        objects_known(items, target_objects(updates)) == forall|id: GlobalId| #[trigger]
            is_updated(updates, ObjectId::Item(id)) ==> items.contains_key(id),
{
    let ids = target_objects(updates);
    if objects_known(items, ids) {
        assert forall|id: GlobalId| #[trigger]
            is_updated(updates, ObjectId::Item(id)) implies items.contains_key(id) by {
            lemma_targets(updates, ObjectId::Item(id));
            assert(ids[ids.index_of(ObjectId::Item(id))] == ObjectId::Item(id));
        };
    } else {
        let i = choose|i: int|
            0 <= i < ids.len() && !(#[trigger] ids[i] matches ObjectId::Item(id)
                ==> items.contains_key(id));
        assert(ids.contains(ids[i]));
        lemma_targets(updates, ids[i]);
        assert(is_updated(updates, ObjectId::Item(ids[i]->Item_0)));
    }
}

/// What is read for a write is looked up, but for the item that is written to.
proof fn lemma_write_looks_up(items: Map<GlobalId, ItemView>, plan: Plan, role: RoleId)
    requires
        items.dom().finite(),
        written(plan) is Some,
    ensures
        items.contains_key(written(plan)->0) && (refers_to_column(plan) && is_read(
            items,
            read_for_write(plan),
            role,
            written(plan)->0,
            role,
        ) ==> !has_query(items[written(plan)->0])) ==> reads(
            items,
            seq![ReadFrame { ids: read_for_write(plan), role }],
            write_seen(items, written(plan)->0, refers_to_column(plan), role),
        ).known == knows_what_is_read(items, read_for_write(plan), role),
{
    let id = written(plan)->0;
    let ids = read_for_write(plan);
    let seen = write_seen(items, id, refers_to_column(plan), role);
    assert(seen =~= seen_by_write(items, plan, role));
    if items.contains_key(id) && (refers_to_column(plan) && is_read(items, ids, role, id, role)
        ==> !has_query(items[id])) {
        law_reads_look_up_what_is_read(items, ids, role, seen);
        if reads(items, seq![ReadFrame { ids, role }], seen).known {
            assert forall|x: GlobalId, reader: RoleId| #[trigger]
                is_read(items, ids, role, x, reader) implies items.contains_key(x) by {
                assert(items.contains_key(x) || seen.contains((ObjectId::Item(x), reader)));
            };
        }
    }
}

/// Whether a plan neither makes, changes nor reads objects, so that whoever meets what else it
/// takes may execute it.
pub open spec fn takes_no_privilege(plan: Plan) -> bool {
    match plan {
        Plan::AlterClusterRename(_)
        | Plan::AlterClusterReplicaRename(_)
        | Plan::AlterCluster(_)
        | Plan::DiscardTemp
        | Plan::DiscardAll
        | Plan::EmptyQuery
        | Plan::ShowAllVariables
        | Plan::ShowVariable
        | Plan::InspectShard
        | Plan::SetVariable
        | Plan::ResetVariable
        | Plan::SetTransaction
        | Plan::StartTransaction
        | Plan::CommitTransaction
        | Plan::AbortTransaction
        | Plan::CopyRows
        | Plan::AlterNoop
        | Plan::AlterSystemSet
        | Plan::AlterSystemReset
        | Plan::AlterSystemResetAll
        | Plan::Declare
        | Plan::Fetch
        | Plan::Close
        | Plan::Prepare
        | Plan::Execute
        | Plan::Deallocate
        | Plan::Raise
        | Plan::DropOwned(_)
        | Plan::ReassignOwned(_)
        | Plan::SideEffectingFunc(_) => true,
        _ => false,
    }
}

/// Such a plan takes no privilege.
pub proof fn law_no_privilege(
    items: Map<GlobalId, ItemView>,
    plan: Plan,
    target_cluster: Option<ClusterId>,
    depends_on: Seq<GlobalId>,
    role: RoleId,
)
    requires
        takes_no_privilege(plan),
    ensures
        required_privileges(items, plan, target_cluster, depends_on, role).len() == 0,
{
}

} // verus!
