//! What holds of access control as a whole.

use crate::acl::{
    builtin_privileges_of, privileges_of, AclMode, MzAclItem, ObjectType, Privilege,
    SystemObjectType,
};
use crate::catalog::CatalogView;
use crate::check::{
    decide, decide_one, granted, membership_of, owners_known, plan_decision, role_names,
    roles_known, unheld_roles, Decision,
};
use crate::error::{AdapterErrorView, DescriptionView, UnauthorizedView};
use crate::grant_laws::{
    can_tell, grants_on, has_all, is_first_unmet, law_first_unmet_decides, law_one_privilege,
    law_only_what_was_granted, roles_of, was_granted,
};
use crate::id_set::{in_order, lemma_in_order};
use crate::ids::{ClusterId, GlobalId, ObjectId, RoleId, SystemObjectId};
use crate::membership::{required_roles, ConnMeta};
use crate::ownership::{descriptions, owned_by, required_ownership, unowned};
use crate::plan::Plan;
use crate::plan_laws::{
    law_members_of_new_owners, law_own_what_is_altered, law_queries_read, law_writes_in_turn,
    privilege_to_write, writes_on_cluster, written,
};
use crate::privilege_laws::law_required_on_what_and_of_whom;
use crate::privileges::{plan_known, required_privileges};
use crate::read_laws::{has_rows, is_for, is_read, is_used, schema_of};
use crate::reads::Requirement;
use crate::session::{
    command_allowed, enabled_for_command, enabled_for_session, enabled_for_system, Command, Session,
};
use vstd::prelude::*;

verus! {

/// The first switch turns access control off for everyone: no session is subject to it, every
/// command is allowed, and a plan is refused only for want of a role.
pub proof fn law_off_for_everyone(
    conns: Map<u32, ConnMeta>,
    catalog: CatalogView,
    session: Session,
    cmd: Command,
    plan: Plan,
    target_cluster: Option<ClusterId>,
    depends_on: Seq<GlobalId>,
)
    requires
        !catalog.vars.enable_ld_rbac_checks,
    ensures
        !enabled_for_session(catalog.vars, session),
        !enabled_for_system(catalog.vars),
        !enabled_for_command(catalog.vars, cmd),
        command_allowed(catalog.vars, cmd),
        match plan_decision(conns, catalog, session, plan, target_cluster, depends_on) {
            Some(Ok(())) => true,
            Some(Err(AdapterErrorView::ConcurrentRoleDrop(_))) => true,
            _ => false,
        },
{
}

/// Whether a session is subject to access control: the switch for everyone is not off, and the
/// server's or the session's own is on.
pub open spec fn is_subject(catalog: CatalogView, session: Session) -> bool {
    &&& catalog.vars.enable_ld_rbac_checks
    &&& catalog.vars.enable_rbac_checks || session.enable_session_rbac_checks
}

/// The server's switch turns access control on for every session, and without it a session is
/// subject to it exactly by its own switch. What belongs to no session is subject to it exactly by
/// the server's switch. All that holds unless the switch for everyone is off.
pub proof fn law_server_and_session_switch(catalog: CatalogView, session: Session)
    ensures
        enabled_for_system(catalog.vars) ==> enabled_for_session(catalog.vars, session),
        enabled_for_session(catalog.vars, session) && !enabled_for_system(catalog.vars)
            ==> session.enable_session_rbac_checks,
        enabled_for_session(catalog.vars, session) == is_subject(catalog, session),
        enabled_for_system(catalog.vars) == (catalog.vars.enable_ld_rbac_checks
            && catalog.vars.enable_rbac_checks),
{
}

/// The session of a command is the one that the command comes with, if it comes with one.
pub proof fn law_sessions_of_commands(cmd: Command, of: Session)
    ensures
        cmd.of_session() == Some(of) <==> {
            ||| cmd == (Command::Startup { session: of })
            ||| cmd == (Command::Declare { session: of })
            ||| cmd == (Command::Prepare { session: of })
            ||| cmd == (Command::VerifyPreparedStatement { session: of })
            ||| cmd == (Command::Execute { session: of })
            ||| cmd == (Command::Commit { session: of })
            ||| cmd == (Command::DumpCatalog { session: of })
            ||| cmd == (Command::CopyRows { session: of })
            ||| cmd == (Command::GetSystemVars { session: of })
            ||| cmd == (Command::SetSystemVars { session: of })
            ||| cmd == (Command::Terminate { session: of })
        },
        cmd.of_session() is None <==> cmd == Command::CancelRequest || cmd
            == Command::PrivilegedCancelRequest,
{
}

/// Whose role was dropped, be it the role they act as or the one they started as, is refused every
/// plan, superuser or not, and whether access control is on or off. They are told of the role they
/// act as, if that was dropped.
pub proof fn law_dropped_role_is_refused(
    conns: Map<u32, ConnMeta>,
    catalog: CatalogView,
    session: Session,
    plan: Plan,
    target_cluster: Option<ClusterId>,
    depends_on: Seq<GlobalId>,
)
    requires
        !catalog.roles.contains_key(session.current_role_id) || !catalog.roles.contains_key(
            session.session_role_id,
        ),
    ensures
        plan_decision(conns, catalog, session, plan, target_cluster, depends_on) == Some(
            Err::<(), AdapterErrorView>(
                AdapterErrorView::ConcurrentRoleDrop(
                    if !catalog.roles.contains_key(session.current_role_id) {
                        session.current_role_id
                    } else {
                        session.session_role_id
                    },
                ),
            ),
        ),
{
}

/// A session whose roles exist may execute every plan unless it is subject to access control.
pub proof fn law_who_is_not_subject_may_all(
    conns: Map<u32, ConnMeta>,
    catalog: CatalogView,
    session: Session,
    plan: Plan,
    target_cluster: Option<ClusterId>,
    depends_on: Seq<GlobalId>,
)
    requires
        !is_subject(catalog, session),
        catalog.roles.contains_key(session.current_role_id),
        catalog.roles.contains_key(session.session_role_id),
    ensures
        plan_decision(conns, catalog, session, plan, target_cluster, depends_on) == Some(
            Ok::<(), AdapterErrorView>(()),
        ),
{
}

/// A superuser whose roles exist may execute every plan and every command.
pub proof fn law_superuser_may_all(
    conns: Map<u32, ConnMeta>,
    catalog: CatalogView,
    session: Session,
    plan: Plan,
    target_cluster: Option<ClusterId>,
    depends_on: Seq<GlobalId>,
)
    requires
        session.is_superuser,
        catalog.roles.contains_key(session.current_role_id),
        catalog.roles.contains_key(session.session_role_id),
    ensures
        plan_decision(conns, catalog, session, plan, target_cluster, depends_on) == Some(
            Ok::<(), AdapterErrorView>(()),
        ),
        command_allowed(catalog.vars, Command::DumpCatalog { session }),
{
}

/// Whether a plan alters default privileges for everybody.
pub open spec fn is_for_everybody(plan: Plan) -> bool {
    plan is AlterDefaultPrivileges && exists|i: int|
        0 <= i < plan->AlterDefaultPrivileges_0.privilege_objects@.len()
            && (#[trigger] plan->AlterDefaultPrivileges_0.privilege_objects@[i]).role_id
            == RoleId::Public
}

/// Only superusers can alter the default privileges for all roles.
pub proof fn law_only_superusers_alter_public_defaults(
    conns: Map<u32, ConnMeta>,
    catalog: CatalogView,
    session: Session,
    plan: Plan,
    target_cluster: Option<ClusterId>,
    depends_on: Seq<GlobalId>,
)
    requires
        is_for_everybody(plan),
        is_subject(catalog, session),
        !session.is_superuser,
    ensures
        plan_decision(conns, catalog, session, plan, target_cluster, depends_on) != Some(
            Ok::<(), AdapterErrorView>(()),
        ),
{
}

/// No role is missing exactly if the required roles are among those that are held.
proof fn lemma_unheld_is_empty(conns: Map<u32, ConnMeta>, plan: Plan, membership: Set<RoleId>)
    ensures
        unheld_roles(conns, plan, membership).len() == 0 <==> required_roles(
            plan,
            conns,
        ).to_set().subset_of(membership),
{
    let required = required_roles(plan, conns).to_set();
    let missing = required.difference(membership);
    vstd::seq_lib::seq_to_set_is_finite(required_roles(plan, conns));
    vstd::set_lib::lemma_set_subset_finite(required, missing);
    lemma_in_order(missing);
    let unheld = unheld_roles(conns, plan, membership);
    if unheld.len() == 0 {
        assert forall|r: RoleId| required.contains(r) implies membership.contains(r) by {
            if !membership.contains(r) {
                assert(missing.contains(r));
                assert(unheld.contains(r));
            }
        };
    } else if required.subset_of(membership) {
        assert(unheld.to_set().contains(unheld[0]));
        assert(missing.contains(unheld[0]));
    }
}

/// Nothing is unowned if everything is owned.
proof fn lemma_unowned_is_empty(catalog: CatalogView, ids: Seq<ObjectId>, roles: Set<RoleId>)
    ensures
        unowned(catalog, ids, roles).len() == 0 <==> forall|i: int|
            0 <= i < ids.len() ==> owned_by(catalog, #[trigger] ids[i], roles),
    decreases ids.len(),
{
    if ids.len() > 0 {
        let front = ids.drop_last();
        lemma_unowned_is_empty(catalog, front, roles);
        if unowned(catalog, ids, roles).len() == 0 {
            assert(owned_by(catalog, ids.last(), roles));
            assert forall|i: int| 0 <= i < ids.len() implies owned_by(
                catalog,
                #[trigger] ids[i],
                roles,
            ) by {
                if i < front.len() {
                    assert(front[i] == ids[i]);
                }
            };
        } else if forall|i: int|
            0 <= i < ids.len() ==> owned_by(catalog, #[trigger] ids[i], roles) {
            assert(owned_by(catalog, ids[ids.len() - 1], roles));
            assert forall|i: int| 0 <= i < front.len() implies owned_by(
                catalog,
                #[trigger] front[i],
                roles,
            ) by {
                assert(front[i] == ids[i]);
            };
        }
    }
}

/// All is granted if each is granted.
proof fn lemma_all_granted(
    catalog: CatalogView,
    memberships: Map<RoleId, Set<RoleId>>,
    required: Seq<Requirement>,
)
    ensures
        decide(catalog, memberships, required) is Granted <==> forall|i: int|
            0 <= i < required.len() ==> decide_one(
                catalog,
                memberships,
                #[trigger] required[i],
            ) is Granted,
    decreases required.len(),
{
    if required.len() > 0 {
        let front = required.drop_last();
        lemma_all_granted(catalog, memberships, front);
        if decide(catalog, memberships, required) is Granted {
            assert forall|i: int| 0 <= i < required.len() implies decide_one(
                catalog,
                memberships,
                #[trigger] required[i],
            ) is Granted by {
                if i < front.len() {
                    assert(front[i] == required[i]);
                }
            };
        } else if forall|i: int|
            0 <= i < required.len() ==> decide_one(
                catalog,
                memberships,
                #[trigger] required[i],
            ) is Granted {
            assert(decide_one(catalog, memberships, required[required.len() - 1]) is Granted);
            assert forall|i: int| 0 <= i < front.len() implies decide_one(
                catalog,
                memberships,
                #[trigger] front[i],
            ) is Granted by {
                assert(front[i] == required[i]);
            };
        }
    }
}

/// What was looked up of memberships and is what the catalog says makes no difference.
pub proof fn law_known_memberships_make_no_difference(
    catalog: CatalogView,
    memberships: Map<RoleId, Set<RoleId>>,
    required: Seq<Requirement>,
)
    requires
        forall|role: RoleId| #[trigger]
            memberships.contains_key(role) ==> catalog.roles.contains_key(role)
                && memberships[role] == catalog.roles[role].membership,
    ensures
        decide(catalog, memberships, required) == decide(catalog, Map::empty(), required),
    decreases required.len(),
{
    if required.len() > 0 {
        law_known_memberships_make_no_difference(catalog, memberships, required.drop_last());
        let role = required.last().2;
        if memberships.contains_key(role) {
            assert(catalog.roles.contains_key(role));
        }
        assert(membership_of(catalog, memberships, role) == membership_of(
            catalog,
            Map::empty(),
            role,
        ));
    }
}

/// Whether a role has the privileges that are required of it, going by the catalog: each of them
/// was itself granted on the object to a role that it is a member of.
pub open spec fn has_privilege(catalog: CatalogView, required: Requirement) -> bool {
    can_tell(catalog, Map::empty(), required) && has_all(catalog, Map::empty(), required)
}

/// Whether one of `roles` owns an object, or the object has no owner.
pub open spec fn is_owned(catalog: CatalogView, id: ObjectId, roles: Set<RoleId>) -> bool {
    catalog.entries.contains_key(id) ==> roles.contains(catalog.entries[id].owner)
}

/// Whether the catalog knows all of `ids`, as far as they have owners.
pub open spec fn knows_owners(catalog: CatalogView, ids: Seq<ObjectId>) -> bool {
    forall|i: int|
        0 <= i < ids.len() ==> catalog.entries.contains_key(#[trigger] ids[i]) || ids[i] is Role
}

/// Whether one of `roles` owns each of `ids` that has an owner.
pub open spec fn all_owned(catalog: CatalogView, ids: Seq<ObjectId>, roles: Set<RoleId>) -> bool {
    forall|i: int| 0 <= i < ids.len() ==> is_owned(catalog, #[trigger] ids[i], roles)
}

/// Whether everyone has what is required of them.
pub open spec fn all_met(catalog: CatalogView, required: Seq<Requirement>) -> bool {
    forall|i: int| 0 <= i < required.len() ==> has_privilege(catalog, #[trigger] required[i])
}

/// Everyone has what is required of them exactly if all is granted.
proof fn lemma_all_met(
    catalog: CatalogView,
    role: RoleId,
    required: Seq<Requirement>,
)
    requires
        catalog.roles.contains_key(role),
    ensures
        all_met(catalog, required) <==> decide(
            catalog,
            map![role => catalog.roles[role].membership],
            required,
        ) == Decision::Granted,
{
    let membership = catalog.roles[role].membership;
    law_known_memberships_make_no_difference(catalog, map![role => membership], required);
    lemma_all_granted(catalog, Map::empty(), required);
    assert forall|r: Requirement| #[trigger] has_privilege(catalog, r) == (decide_one(
        catalog,
        Map::empty(),
        r,
    ) is Granted) by {
        law_only_what_was_granted(catalog, Map::empty(), r);
    };
    if all_met(catalog, required) {
        assert forall|i: int| 0 <= i < required.len() implies decide_one(
            catalog,
            Map::empty(),
            #[trigger] required[i],
        ) is Granted by {
            assert(has_privilege(catalog, required[i]));
        };
    }
    if decide(catalog, Map::empty(), required) == Decision::Granted {
        assert forall|i: int| 0 <= i < required.len() implies has_privilege(
            catalog,
            #[trigger] required[i],
        ) by {
            assert(decide_one(catalog, Map::empty(), required[i]) is Granted);
        };
    }
}

/// Those of some objects that are not owned are those that are not owned, in their order.
proof fn lemma_unowned(catalog: CatalogView, ids: Seq<ObjectId>, roles: Set<RoleId>)
    ensures
        unowned(catalog, ids, roles) == ids.filter(|id: ObjectId| !is_owned(catalog, id, roles)),
        unowned(catalog, ids, roles).len() == 0 <==> all_owned(catalog, ids, roles),
    decreases ids.len(),
{
    reveal(Seq::filter);
    let lacking = |id: ObjectId| !is_owned(catalog, id, roles);
    lemma_unowned_is_empty(catalog, ids, roles);
    if all_owned(catalog, ids, roles) {
        assert forall|i: int| 0 <= i < ids.len() implies owned_by(
            catalog,
            #[trigger] ids[i],
            roles,
        ) by {
            assert(is_owned(catalog, ids[i], roles));
        };
    } else {
        let i = choose|i: int| 0 <= i < ids.len() && !is_owned(catalog, #[trigger] ids[i], roles);
        assert(!owned_by(catalog, ids[i], roles));
    }
    if ids.len() > 0 {
        lemma_unowned(catalog, ids.drop_last(), roles);
        assert(owned_by(catalog, ids.last(), roles) == is_owned(catalog, ids.last(), roles));
        assert(unowned(catalog, ids, roles) =~= ids.filter(lacking));
    }
}

/// A session that is subject to access control may execute a plan exactly if its role is a member
/// of each role that it must be a member of, a role that it is a member of owns each object that
/// must be owned, everyone of whom a privilege is required has it, the plan does not alter the
/// default privileges for all roles, and the catalog knows all of these objects.
pub proof fn law_authorized_iff(
    conns: Map<u32, ConnMeta>,
    catalog: CatalogView,
    session: Session,
    plan: Plan,
    target_cluster: Option<ClusterId>,
    depends_on: Seq<GlobalId>,
)
    requires
        catalog.roles.contains_key(session.current_role_id),
        catalog.roles.contains_key(session.session_role_id),
        is_subject(catalog, session),
        !session.is_superuser,
    ensures
        ({
            let role = session.current_role_id;
            let membership = catalog.roles[role].membership;
            let owned = required_ownership(plan);
            let required = required_privileges(
                catalog.items,
                plan,
                target_cluster,
                depends_on,
                role,
            );
            plan_decision(conns, catalog, session, plan, target_cluster, depends_on) == Some(
                Ok::<(), AdapterErrorView>(()),
            ) <==> {
                &&& required_roles(plan, conns).to_set().subset_of(membership)
                &&& knows_owners(catalog, owned)
                &&& all_owned(catalog, owned, membership)
                &&& plan_known(catalog.items, plan, depends_on, role)
                &&& all_met(catalog, required)
                &&& !is_for_everybody(plan)
            }
        }),
{
    let role = session.current_role_id;
    let membership = catalog.roles[role].membership;
    let required = required_privileges(catalog.items, plan, target_cluster, depends_on, role);
    lemma_unheld_is_empty(conns, plan, membership);
    lemma_unowned(catalog, required_ownership(plan), membership);
    lemma_all_met(catalog, role, required);
}

/// One of some roles is taken to own an object exactly if it owns it or the object has no owner.
pub proof fn law_who_owns(catalog: CatalogView, id: ObjectId, roles: Set<RoleId>)
    ensures
        owned_by(catalog, id, roles) == is_owned(catalog, id, roles),
{
}

/// What the catalog says of an object in messages, going by what it holds.
pub open spec fn describes(catalog: CatalogView, id: SystemObjectId) -> DescriptionView {
    match id {
        SystemObjectId::Object(object) => DescriptionView::Object {
            object_type: catalog.entries[object].object_type,
            object_name: catalog.entries[object].name,
        },
        SystemObjectId::System => DescriptionView::System,
    }
}

/// The refusal of a session that is subject to access control.
pub open spec fn refusal(error: UnauthorizedView) -> Option<Result<(), AdapterErrorView>> {
    Some(Err(AdapterErrorView::Unauthorized(error)))
}

/// Who is not a member of all roles that they must be a member of is told the names of all that are
/// missing, in their order. Nothing is decided where one of them is unknown.
pub proof fn law_told_of_missing_roles(
    conns: Map<u32, ConnMeta>,
    catalog: CatalogView,
    session: Session,
    plan: Plan,
    target_cluster: Option<ClusterId>,
    depends_on: Seq<GlobalId>,
)
    requires
        catalog.roles.contains_key(session.current_role_id),
        catalog.roles.contains_key(session.session_role_id),
        is_subject(catalog, session),
        !session.is_superuser,
        !required_roles(plan, conns).to_set().subset_of(
            catalog.roles[session.current_role_id].membership,
        ),
    ensures
        ({
            let missing = in_order(
                required_roles(plan, conns).to_set().difference(
                    catalog.roles[session.current_role_id].membership,
                ),
            );
            let names = Seq::new(missing.len(), |i: int| catalog.roles[missing[i]].name);
            let decision = plan_decision(
                conns,
                catalog,
                session,
                plan,
                target_cluster,
                depends_on,
            );
            let known = forall|i: int|
                0 <= i < missing.len() ==> catalog.roles.contains_key(#[trigger] missing[i]);
            &&& missing.len() > 0
            &&& known ==> decision == refusal(
                UnauthorizedView::RoleMembership { role_names: names },
            )
            &&& !known ==> decision is None
        }),
{
    let membership = catalog.roles[session.current_role_id].membership;
    lemma_unheld_is_empty(conns, plan, membership);
    let missing = in_order(required_roles(plan, conns).to_set().difference(membership));
    assert(missing == unheld_roles(conns, plan, membership));
    assert(Seq::new(missing.len(), |i: int| catalog.roles[missing[i]].name) =~= role_names(
        catalog,
        missing,
    ));
}

/// Who does not own all that they must own is told what all they do not own, in the order in which
/// it must be owned. Nothing is decided where something that must be owned is unknown.
pub proof fn law_told_of_what_is_not_owned(
    conns: Map<u32, ConnMeta>,
    catalog: CatalogView,
    session: Session,
    plan: Plan,
    target_cluster: Option<ClusterId>,
    depends_on: Seq<GlobalId>,
)
    requires
        catalog.roles.contains_key(session.current_role_id),
        catalog.roles.contains_key(session.session_role_id),
        is_subject(catalog, session),
        !session.is_superuser,
        required_roles(plan, conns).to_set().subset_of(
            catalog.roles[session.current_role_id].membership,
        ),
    ensures
        ({
            let membership = catalog.roles[session.current_role_id].membership;
            let owned = required_ownership(plan);
            let lacking = owned.filter(|id: ObjectId| !is_owned(catalog, id, membership));
            let objects = Seq::new(
                lacking.len(),
                |i: int|
                    (catalog.entries[lacking[i]].object_type, catalog.entries[lacking[i]].name),
            );
            let decision = plan_decision(
                conns,
                catalog,
                session,
                plan,
                target_cluster,
                depends_on,
            );
            &&& !knows_owners(catalog, owned) ==> decision is None
            &&& knows_owners(catalog, owned) && !all_owned(catalog, owned, membership)
                ==> decision == refusal(UnauthorizedView::Ownership { objects })
        }),
{
    let membership = catalog.roles[session.current_role_id].membership;
    let owned = required_ownership(plan);
    lemma_unheld_is_empty(conns, plan, membership);
    lemma_unowned(catalog, owned, membership);
    let lacking = unowned(catalog, owned, membership);
    assert(Seq::new(
        lacking.len(),
        |i: int| (catalog.entries[lacking[i]].object_type, catalog.entries[lacking[i]].name),
    ) =~= descriptions(catalog, lacking));
}

/// Who is a member of all roles and owns all objects as they must, but lacks a privilege, or on
/// whose behalf someone lacks one, is told of the object that the first missing privilege is on.
/// Who lacks none, but alters default privileges for everybody, is told that only superusers can.
/// Nothing is decided where the first thing that stands in the way is that something is unknown.
pub proof fn law_told_of_the_first_missing_privilege(
    conns: Map<u32, ConnMeta>,
    catalog: CatalogView,
    session: Session,
    plan: Plan,
    target_cluster: Option<ClusterId>,
    depends_on: Seq<GlobalId>,
    i: int,
)
    requires
        catalog.roles.contains_key(session.current_role_id),
        catalog.roles.contains_key(session.session_role_id),
        is_subject(catalog, session),
        !session.is_superuser,
        required_roles(plan, conns).to_set().subset_of(
            catalog.roles[session.current_role_id].membership,
        ),
        knows_owners(catalog, required_ownership(plan)),
        all_owned(
            catalog,
            required_ownership(plan),
            catalog.roles[session.current_role_id].membership,
        ),
    ensures
        ({
            let role = session.current_role_id;
            let required = required_privileges(
                catalog.items,
                plan,
                target_cluster,
                depends_on,
                role,
            );
            let known = plan_known(catalog.items, plan, depends_on, role);
            let decision = plan_decision(
                conns,
                catalog,
                session,
                plan,
                target_cluster,
                depends_on,
            );
            &&& !known ==> decision is None
            &&& known && is_first_unmet(catalog, Map::empty(), required, i) ==> decision == (
            if can_tell(catalog, Map::empty(), required[i]) {
                refusal(
                    UnauthorizedView::Privilege {
                        object_description: describes(catalog, required[i].0),
                    },
                )
            } else {
                None
            })
            &&& known && all_met(catalog, required) && is_for_everybody(plan) ==> decision
                == refusal(
                UnauthorizedView::Superuser { action: "ALTER DEFAULT PRIVILEGES FOR ALL ROLES"@ },
            )
        }),
{
    let role = session.current_role_id;
    let membership = catalog.roles[role].membership;
    let required = required_privileges(catalog.items, plan, target_cluster, depends_on, role);
    lemma_unheld_is_empty(conns, plan, membership);
    lemma_unowned(catalog, required_ownership(plan), membership);
    lemma_all_met(catalog, role, required);
    law_known_memberships_make_no_difference(catalog, map![role => membership], required);
    law_first_unmet_decides(catalog, Map::empty(), required);
}

/// Whether no one can do less by `more` than by `less`: what is known stays known, every role is a
/// member of as many roles, every object has the same owner, and everything that was granted is
/// granted still.
pub open spec fn grants_as_much(less: CatalogView, more: CatalogView) -> bool {
    &&& more.vars == less.vars
    &&& more.items == less.items
    &&& forall|role: RoleId| #[trigger]
        less.roles.contains_key(role) ==> more.roles.contains_key(role)
            && less.roles[role].membership.subset_of(more.roles[role].membership)
    &&& forall|id: ObjectId| #[trigger]
        less.entries.contains_key(id) ==> more.entries.contains_key(id) && more.entries[id].owner
            == less.entries[id].owner
    &&& forall|id: SystemObjectId| #[trigger]
        less.acl(id) is Some ==> more.acl(id) is Some && less.acl(id)->0.to_set().subset_of(
            more.acl(id)->0.to_set(),
        )
}

/// To more roles more was granted, and by more grants.
proof fn lemma_granted_more(
    acl: Seq<MzAclItem>,
    more_acl: Seq<MzAclItem>,
    roles: Set<RoleId>,
    more_roles: Set<RoleId>,
)
    requires
        acl.to_set().subset_of(more_acl.to_set()),
        roles.subset_of(more_roles),
    ensures
        granted(acl, roles).subset_of(granted(more_acl, more_roles)),
{
    assert forall|p: Privilege| granted(acl, roles).contains(p) implies granted(
        more_acl,
        more_roles,
    ).contains(p) by {
        let i = choose|i: int|
            0 <= i < acl.len() && roles.contains((#[trigger] acl[i]).grantee)
                && acl[i].acl_mode@.contains(p);
        assert(acl.to_set().contains(acl[i]));
        assert(more_acl.contains(acl[i]));
        let j = more_acl.index_of(acl[i]);
        assert(more_acl[j] == acl[i]);
    };
}

/// Nobody loses by a grant: who may execute a plan may still do so when roles have become members
/// of further roles and further privileges were granted.
pub proof fn law_grants_take_nothing_away(
    conns: Map<u32, ConnMeta>,
    less: CatalogView,
    more: CatalogView,
    session: Session,
    plan: Plan,
    target_cluster: Option<ClusterId>,
    depends_on: Seq<GlobalId>,
)
    requires
        more.wf(),
        grants_as_much(less, more),
        plan_decision(conns, less, session, plan, target_cluster, depends_on) == Some(
            Ok::<(), AdapterErrorView>(()),
        ),
    ensures
        plan_decision(conns, more, session, plan, target_cluster, depends_on) == Some(
            Ok::<(), AdapterErrorView>(()),
        ),
{
    if is_subject(less, session) && !session.is_superuser {
        let role = session.current_role_id;
        let membership = less.roles[role].membership;
        let more_membership = more.roles[role].membership;
        let owned = required_ownership(plan);
        let required = required_privileges(less.items, plan, target_cluster, depends_on, role);
        law_authorized_iff(conns, less, session, plan, target_cluster, depends_on);
        assert forall|i: int| 0 <= i < owned.len() implies (more.entries.contains_key(
            #[trigger] owned[i],
        ) || owned[i] is Role) && is_owned(more, owned[i], more_membership) by {
            assert(less.entries.contains_key(owned[i]) || owned[i] is Role);
            assert(is_owned(less, owned[i], membership));
            if let ObjectId::Role(id) = owned[i] {
                assert(!more.entries.contains_key(ObjectId::Role(id)));
            }
        };
        assert forall|i: int| 0 <= i < required.len() implies has_privilege(
            more,
            #[trigger] required[i],
        ) by {
            let r = required[i];
            assert(has_privilege(less, r));
            assert(less.acl(r.0) == grants_on(less, r.0));
            assert(more.acl(r.0) == grants_on(more, r.0));
            assert(less.acl(r.0) is Some);
            let acl = grants_on(less, r.0)->0;
            let more_acl = grants_on(more, r.0)->0;
            let roles = roles_of(less, Map::empty(), r.2)->0;
            let more_roles = roles_of(more, Map::empty(), r.2)->0;
            lemma_granted_more(acl, more_acl, roles, more_roles);
            assert forall|p: Privilege| #[trigger] r.1@.contains(p) implies was_granted(
                more_acl,
                more_roles,
                p,
            ) by {
                assert(was_granted(acl, roles, p));
                assert(granted(acl, roles).contains(p));
                assert(granted(more_acl, more_roles).contains(p));
            };
        };
        law_authorized_iff(conns, more, session, plan, target_cluster, depends_on);
    }
}

/// Whether a session may execute a plan is decided wherever the catalog knows the roles that the
/// session must be a member of, the objects that must be owned, the items that the plan is about,
/// and the objects and the roles that privileges are required on and of.
pub proof fn law_decided_where_all_is_known(
    conns: Map<u32, ConnMeta>,
    catalog: CatalogView,
    session: Session,
    plan: Plan,
    target_cluster: Option<ClusterId>,
    depends_on: Seq<GlobalId>,
)
    requires
        catalog.wf(),
        roles_known(catalog, required_roles(plan, conns)),
        owners_known(catalog, required_ownership(plan)),
        plan_known(catalog.items, plan, depends_on, session.current_role_id),
        forall|required: Requirement| #[trigger]
            required_privileges(
                catalog.items,
                plan,
                target_cluster,
                depends_on,
                session.current_role_id,
            ).contains(required) ==> catalog.roles.contains_key(required.2) && (required.0
                == SystemObjectId::System || catalog.entries.contains_key(required.0.object()->0)),
    ensures
        plan_decision(conns, catalog, session, plan, target_cluster, depends_on) is Some,
{
    let role = session.current_role_id;
    if catalog.roles.contains_key(role) {
        let membership = catalog.roles[role].membership;
        let roles = required_roles(plan, conns);
        let unheld = unheld_roles(conns, plan, membership);
        let required = required_privileges(catalog.items, plan, target_cluster, depends_on, role);
        let missing = roles.to_set().difference(membership);
        vstd::seq_lib::seq_to_set_is_finite(roles);
        vstd::set_lib::lemma_set_subset_finite(roles.to_set(), missing);
        lemma_in_order(missing);
        assert forall|i: int| 0 <= i < unheld.len() implies catalog.roles.contains_key(
            #[trigger] unheld[i],
        ) by {
            assert(unheld.to_set().contains(unheld[i]));
            assert(roles.contains(unheld[i]));
            assert(roles[roles.index_of(unheld[i])] == unheld[i]);
        };
        law_known_memberships_make_no_difference(catalog, map![role => membership], required);
        assert forall|i: int| 0 <= i < required.len() implies !(decide_one(
            catalog,
            Map::empty(),
            #[trigger] required[i],
        ) is Unknown) by {
            assert(required.contains(required[i]));
            law_required_on_what_and_of_whom(
                catalog.items,
                plan,
                target_cluster,
                depends_on,
                role,
                required[i],
            );
        };
        lemma_none_unknown(catalog, Map::empty(), required);
    }
}

/// What is known of each is known of all.
proof fn lemma_none_unknown(
    catalog: CatalogView,
    memberships: Map<RoleId, Set<RoleId>>,
    required: Seq<Requirement>,
)
    requires
        forall|i: int|
            0 <= i < required.len() ==> !(decide_one(
                catalog,
                memberships,
                #[trigger] required[i],
            ) is Unknown),
    ensures
        !(decide(catalog, memberships, required) is Unknown),
    decreases required.len(),
{
    if required.len() > 0 {
        let front = required.drop_last();
        assert forall|i: int| 0 <= i < front.len() implies !(decide_one(
            catalog,
            memberships,
            #[trigger] front[i],
        ) is Unknown) by {
            assert(front[i] == required[i]);
        };
        lemma_none_unknown(catalog, memberships, front);
        assert(!(decide_one(catalog, memberships, required[required.len() - 1]) is Unknown));
    }
}

/// Roles have no owner, so a role is never among the objects that someone would have to own but
/// does not.
pub proof fn law_roles_have_no_owner(
    catalog: CatalogView,
    ids: Seq<ObjectId>,
    roles: Set<RoleId>,
    role: RoleId,
)
    requires
        catalog.wf(),
    ensures
        catalog.owner(ObjectId::Role(role)) is None,
        !unowned(catalog, ids, roles).contains(ObjectId::Role(role)),
    decreases ids.len(),
{
    assert(!catalog.entries.contains_key(ObjectId::Role(role)));
    if ids.len() > 0 {
        let front = ids.drop_last();
        law_roles_have_no_owner(catalog, front, roles, role);
        let all = unowned(catalog, ids, roles);
        let before = unowned(catalog, front, roles);
        if all.contains(ObjectId::Role(role)) {
            let i = all.index_of(ObjectId::Role(role));
            if i < before.len() {
                assert(before[i] == all[i]);
            }
        }
    }
}

/// Whoever is a member of a role to which all privileges of a type were granted, as they are to
/// the owner of a new object, has all of them; and who is a member of the role of everybody has
/// those that are granted on built-in objects, which are among them.
pub proof fn law_owners_and_everybody(
    object_type: ObjectType,
    acl: Seq<MzAclItem>,
    item: MzAclItem,
    roles: Set<RoleId>,
)
    requires
        acl.contains(item),
        roles.contains(item.grantee),
    ensures
        item.acl_mode@ == privileges_of(SystemObjectType::Object(object_type)) ==> privileges_of(
            SystemObjectType::Object(object_type),
        ).subset_of(granted(acl, roles)),
        item.acl_mode@ == builtin_privileges_of(object_type) ==> builtin_privileges_of(
            object_type,
        ).subset_of(granted(acl, roles)),
        builtin_privileges_of(object_type).subset_of(
            privileges_of(SystemObjectType::Object(object_type)),
        ),
{
    assert forall|p: Privilege| item.acl_mode@.contains(p) implies granted(acl, roles).contains(
        p,
    ) by {
        let i = acl.index_of(item);
        assert(acl[i] == item);
    };
}

/// A command is refused exactly if it is to dump the catalog and comes from a session that is
/// subject to access control and not a superuser's.
pub proof fn law_only_dumps_are_refused(catalog: CatalogView, cmd: Command)
    ensures
        !(cmd is DumpCatalog) ==> command_allowed(catalog.vars, cmd),
        cmd matches Command::DumpCatalog { session } ==> (command_allowed(catalog.vars, cmd) <==>
            session.is_superuser || !is_subject(catalog, session)),
{
}

/// Whether a role was granted `privilege` on an object, through a role that it is a member of.
pub open spec fn may(
    catalog: CatalogView,
    role: RoleId,
    privilege: Privilege,
    id: SystemObjectId,
) -> bool {
    &&& catalog.roles.contains_key(role)
    &&& grants_on(catalog, id) is Some
    &&& was_granted(grants_on(catalog, id)->0, catalog.roles[role].membership, privilege)
}

/// Who has what is required of them has the one privilege that it is.
proof fn lemma_has_one(
    catalog: CatalogView,
    required: Seq<Requirement>,
    id: SystemObjectId,
    privilege: Privilege,
    role: RoleId,
)
    requires
        all_met(catalog, required),
        required.contains((id, AclMode::only(privilege), role)),
    ensures
        may(catalog, role, privilege, id),
{
    let one = (id, AclMode::only(privilege), role);
    assert(has_privilege(catalog, required[required.index_of(one)]));
    law_one_privilege(privilege, privilege);
    assert(one.1@.contains(privilege));
}

/// Who is subject to access control and may give an object another owner is a member of the new
/// owner and of the owner that it has, if it has one.
pub proof fn law_only_owners_give_away(
    conns: Map<u32, ConnMeta>,
    catalog: CatalogView,
    session: Session,
    plan: Plan,
    target_cluster: Option<ClusterId>,
    depends_on: Seq<GlobalId>,
)
    requires
        plan is AlterOwner,
        is_subject(catalog, session),
        !session.is_superuser,
        plan_decision(conns, catalog, session, plan, target_cluster, depends_on) == Some(
            Ok::<(), AdapterErrorView>(()),
        ),
    ensures
        ({
            let given = plan->AlterOwner_0;
            let membership = catalog.roles[session.current_role_id].membership;
            &&& catalog.entries.contains_key(given.id) ==> membership.contains(
                catalog.entries[given.id].owner,
            )
            &&& membership.contains(given.new_owner)
        }),
{
    law_authorized_iff(conns, catalog, session, plan, target_cluster, depends_on);
    law_own_what_is_altered(plan);
    law_members_of_new_owners(plan, conns);
    assert(is_owned(
        catalog,
        required_ownership(plan)[0],
        catalog.roles[session.current_role_id].membership,
    ));
    assert(required_roles(plan, conns)[0] == plan->AlterOwner_0.new_owner);
    assert(required_roles(plan, conns).to_set().contains(required_roles(plan, conns)[0]));
}

/// Who is subject to access control and may execute a query may do so because everyone on whose
/// behalf something is read may read it: the role what the query reads, and the owner of each view
/// what the view reads.
pub proof fn law_queries_need_every_reader(
    conns: Map<u32, ConnMeta>,
    catalog: CatalogView,
    session: Session,
    plan: Plan,
    target_cluster: Option<ClusterId>,
    depends_on: Seq<GlobalId>,
    id: GlobalId,
    reader: RoleId,
)
    requires
        catalog.items.dom().finite(),
        plan is Select || plan is Subscribe || plan is Explain,
        is_subject(catalog, session),
        !session.is_superuser,
        plan_decision(conns, catalog, session, plan, target_cluster, depends_on) == Some(
            Ok::<(), AdapterErrorView>(()),
        ),
        is_read(catalog.items, depends_on, session.current_role_id, id, reader),
        catalog.items.contains_key(id),
    ensures
        may(catalog, reader, Privilege::Usage, schema_of(catalog.items[id])),
        has_rows(catalog.items[id]) ==> may(
            catalog,
            reader,
            Privilege::Select,
            SystemObjectId::Object(ObjectId::Item(id)),
        ),
        is_used(catalog.items[id]) ==> may(
            catalog,
            reader,
            Privilege::Usage,
            SystemObjectId::Object(ObjectId::Item(id)),
        ),
{
    let items = catalog.items;
    let role = session.current_role_id;
    let required = required_privileges(items, plan, target_cluster, depends_on, role);
    let object = SystemObjectId::Object(ObjectId::Item(id));
    law_authorized_iff(conns, catalog, session, plan, target_cluster, depends_on);
    let usage = (schema_of(items[id]), AclMode::only(Privilege::Usage), reader);
    assert(is_for(items, usage, id, reader));
    law_queries_read(items, plan, target_cluster, depends_on, role, usage);
    lemma_has_one(catalog, required, schema_of(items[id]), Privilege::Usage, reader);
    if has_rows(items[id]) {
        let select = (object, AclMode::only(Privilege::Select), reader);
        assert(is_for(items, select, id, reader));
        law_queries_read(items, plan, target_cluster, depends_on, role, select);
        lemma_has_one(catalog, required, object, Privilege::Select, reader);
    }
    if is_used(items[id]) {
        let own = (object, AclMode::only(Privilege::Usage), reader);
        assert(is_for(items, own, id, reader));
        law_queries_read(items, plan, target_cluster, depends_on, role, own);
        lemma_has_one(catalog, required, object, Privilege::Usage, reader);
    }
}

/// Who is subject to access control and may write to an item was granted the privilege to write as
/// they do, and the use of the cluster that the write is evaluated on.
pub proof fn law_writes_need_the_privilege_to_write(
    conns: Map<u32, ConnMeta>,
    catalog: CatalogView,
    session: Session,
    plan: Plan,
    target_cluster: Option<ClusterId>,
    depends_on: Seq<GlobalId>,
)
    requires
        written(plan) is Some,
        is_subject(catalog, session),
        !session.is_superuser,
        plan_decision(conns, catalog, session, plan, target_cluster, depends_on) == Some(
            Ok::<(), AdapterErrorView>(()),
        ),
    ensures
        may(
            catalog,
            session.current_role_id,
            privilege_to_write(plan),
            SystemObjectId::Object(ObjectId::Item(written(plan)->0)),
        ),
        target_cluster is Some && writes_on_cluster(plan) ==> may(
            catalog,
            session.current_role_id,
            Privilege::Usage,
            SystemObjectId::Object(ObjectId::Cluster(target_cluster->0)),
        ),
{
    let role = session.current_role_id;
    let required = required_privileges(catalog.items, plan, target_cluster, depends_on, role);
    law_authorized_iff(conns, catalog, session, plan, target_cluster, depends_on);
    law_writes_in_turn(catalog.items, plan, target_cluster, depends_on, role);
    let object = SystemObjectId::Object(ObjectId::Item(written(plan)->0));
    assert(required.contains(required[1]));
    lemma_has_one(catalog, required, object, privilege_to_write(plan), role);
    if target_cluster is Some && writes_on_cluster(plan) {
        assert(required[required.len() - 1] == required.last());
        assert(required.contains(required.last()));
        lemma_has_one(
            catalog,
            required,
            SystemObjectId::Object(ObjectId::Cluster(target_cluster->0)),
            Privilege::Usage,
            role,
        );
    }
}

} // verus!
