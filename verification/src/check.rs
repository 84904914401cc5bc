//! Whether a session may execute a plan.

use crate::acl::{AclMode, MzAclItem, Privilege};
use crate::catalog::{CatalogView, SessionCatalog};
use crate::error::{
    description, AdapterError, AdapterErrorView, ErrorMessageObjectDescription, UnauthorizedError,
    UnauthorizedView,
};
use crate::id_set::{in_order, IdSet};
use crate::ids::{ClusterId, GlobalId, ObjectId, RoleId, SystemObjectId};
use crate::membership::{generate_required_role_membership, required_roles, ConnMeta};
use crate::ownership::{
    check_owner_roles, descriptions, generate_required_ownership, ownership_err,
    required_ownership, unowned,
};
use crate::plan::{DefaultPrivilegeObject, Plan};
use crate::privileges::{
    generate_required_privileges, is_plan_known, plan_known, required_privileges,
};
use crate::reads::Requirement;
use crate::record::{find, table, Record};
use crate::session::{enabled_for_session, is_rbac_enabled_for_session, Session};
use crate::text::texts;
use std::collections::BTreeMap;
use vstd::prelude::*;

verus! {

/// All roles that a role is a member of, as far as that was looked up.
#[derive(Debug)]
pub struct RoleMembership {
    pub role_id: RoleId,
    pub membership: IdSet<RoleId>,
}

impl View for RoleMembership {
    type V = Set<RoleId>;

    open spec fn view(&self) -> Set<RoleId> {
        self.membership@
    }
}

impl Record for RoleMembership {
    type Id = RoleId;

    open spec fn key(&self) -> RoleId {
        self.role_id
    }

    fn has_key(&self, id: &RoleId) -> (b: bool) {
        self.role_id == *id
    }
}

/// The privileges that someone was granted who is a member of `roles`.
pub open spec fn granted(acl: Seq<MzAclItem>, roles: Set<RoleId>) -> Set<Privilege> {
    Set::new(
        |p: Privilege|
            exists|i: int|
                0 <= i < acl.len() && roles.contains((#[trigger] acl[i]).grantee)
                    && acl[i].acl_mode@.contains(p),
    )
}

/// What comes of looking whether roles have the privileges that are required of them.
pub enum Decision {
    /// They have them.
    Granted,
    /// A role does not have the privilege that is required on this object.
    Denied(SystemObjectId),
    /// There is no such role, or no such object, or it is of a kind that has no privileges.
    Unknown,
}

/// The roles that a role is a member of: what was looked up before, or else what the catalog says.
pub open spec fn membership_of(
    catalog: CatalogView,
    memberships: Map<RoleId, Set<RoleId>>,
    role: RoleId,
) -> Option<Set<RoleId>> {
    if memberships.contains_key(role) {
        Some(memberships[role])
    } else if catalog.roles.contains_key(role) {
        Some(catalog.roles[role].membership)
    } else {
        None
    }
}

/// Whether a role has the privilege that is required of it.
pub open spec fn decide_one(
    catalog: CatalogView,
    memberships: Map<RoleId, Set<RoleId>>,
    required: Requirement,
) -> Decision {
    match (membership_of(catalog, memberships, required.2), catalog.acl(required.0)) {
        (Some(roles), Some(acl)) => if required.1@.subset_of(granted(acl, roles)) {
            Decision::Granted
        } else {
            Decision::Denied(required.0)
        },
        _ => Decision::Unknown,
    }
}

/// Whether roles have the privileges that are required of them. The first that is not granted
/// decides.
pub open spec fn decide(
    catalog: CatalogView,
    memberships: Map<RoleId, Set<RoleId>>,
    required: Seq<Requirement>,
) -> Decision
    decreases required.len(),
{
    if required.len() == 0 {
        Decision::Granted
    } else {
        match decide(catalog, memberships, required.drop_last()) {
            Decision::Granted => decide_one(catalog, memberships, required.last()),
            decision => decision,
        }
    }
}

/// What is not granted decides, whatever else is required.
proof fn lemma_first_decides(
    catalog: CatalogView,
    memberships: Map<RoleId, Set<RoleId>>,
    required: Seq<Requirement>,
    n: int,
)
    requires
        0 <= n <= required.len(),
        !(decide(catalog, memberships, required.take(n)) is Granted),
    ensures
        decide(catalog, memberships, required) == decide(catalog, memberships, required.take(n)),
    decreases required.len() - n,
{
    if n == required.len() {
        assert(required.take(n) =~= required);
    } else {
        assert(required.take(n + 1).drop_last() =~= required.take(n));
        lemma_first_decides(catalog, memberships, required, n + 1);
    }
}

/// Unites the privileges that members of `roles` were granted.
fn unite_granted(acl: &Vec<MzAclItem>, roles: &IdSet<RoleId>) -> (mode: AclMode)
    ensures
        mode@ == granted(acl@, roles@),
{
    let mut mode = AclMode::empty();
    assert(granted(acl@.take(0), roles@) =~= Set::empty());
    for i in 0..acl.len()
        invariant
            mode@ == granted(acl@.take(i as int), roles@),
    {
        let ghost front = acl@.take(i as int);
        let ghost more = acl@.take(i + 1);
        let item = acl[i];
        assert(more =~= front.push(item));
        proof {
            assert forall|p: Privilege| granted(more, roles@).contains(p) == (granted(
                front,
                roles@,
            ).contains(p) || roles@.contains(item.grantee) && item.acl_mode@.contains(p)) by {
                if granted(front, roles@).contains(p) {
                    let k = choose|k: int|
                        0 <= k < front.len() && roles@.contains((#[trigger] front[k]).grantee)
                            && front[k].acl_mode@.contains(p);
                    assert(more[k] == front[k]);
                }
                if roles@.contains(item.grantee) && item.acl_mode@.contains(p) {
                    assert(more[i as int] == item);
                }
                if granted(more, roles@).contains(p) {
                    let k = choose|k: int|
                        0 <= k < more.len() && roles@.contains((#[trigger] more[k]).grantee)
                            && more[k].acl_mode@.contains(p);
                    if k < i {
                        assert(front[k] == more[k]);
                    }
                }
            };
        }
        if roles.contains(&item.grantee) {
            mode = mode.union(item.acl_mode);
        }
        assert(mode@ =~= granted(more, roles@));
    }
    assert(acl@.take(acl@.len() as int) =~= acl@);
    mode
}

/// Checks if roles have the privileges that are required of them. If not, an error is returned, and
/// nothing if a role or an object is unknown.
pub fn try_check_object_privileges(
    catalog: &SessionCatalog,
    privileges: Vec<Requirement>,
    role_memberships: Vec<RoleMembership>,
) -> (checked: Option<Result<(), UnauthorizedError>>)
    ensures
        match decide(catalog@, table(role_memberships@), privileges@) {
            Decision::Granted => checked == Some(Ok::<(), UnauthorizedError>(())),
            Decision::Denied(id) => checked matches Some(Err(error)) && error@ == (
            UnauthorizedView::Privilege { object_description: description(catalog@, id) }),
            Decision::Unknown => checked is None,
        },
{
    let ghost given = table(role_memberships@);
    let mut looked_up = role_memberships;
    assert(privileges@.take(0) =~= Seq::empty());
    for i in 0..privileges.len()
        invariant
            given == table(role_memberships@),
            given.submap_of(table(looked_up@)),
            forall|role: RoleId| #[trigger]
                table(looked_up@).contains_key(role) && !given.contains_key(role)
                    ==> catalog@.roles.contains_key(role) && table(looked_up@)[role]
                    == catalog@.roles[role].membership,
            decide(catalog@, given, privileges@.take(i as int)) is Granted,
    {
        let (object_id, acl_mode, role_id) = privileges[i];
        proof {
            assert(privileges@.take(i + 1).drop_last() =~= privileges@.take(i as int));
            assert(privileges@.take(i + 1).last() == privileges@[i as int]);
            if !(decide(catalog@, given, privileges@.take(i + 1)) is Granted) {
                lemma_first_decides(catalog@, given, privileges@, i + 1);
            }
        }
        if find(&looked_up, &role_id).is_none() {
            if catalog.try_get_role(&role_id).is_none() {
                return None;
            }
            let membership = catalog.collect_role_membership(&role_id);
            let ghost before = looked_up@;
            looked_up.push(RoleMembership { role_id, membership });
            assert(looked_up@.drop_last() =~= before);
            assert(table(looked_up@) == table(before).insert(role_id, membership@));
            assert forall|role: RoleId| #[trigger] given.contains_key(role) implies table(
                looked_up@,
            ).contains_key(role) && table(looked_up@)[role] == given[role] by {
                assert(table(before).contains_key(role));
            };
        }
        let role_membership = &find(&looked_up, &role_id).unwrap().membership;
        match catalog.get_privileges(&object_id) {
            None => {
                return None;
            },
            Some(object_privileges) => {
                let role_privileges = unite_granted(object_privileges, role_membership);
                if !role_privileges.contains(acl_mode) {
                    return Some(
                        Err(
                            UnauthorizedError::Privilege {
                                object_description: ErrorMessageObjectDescription::from_id(
                                    &object_id,
                                    catalog,
                                ),
                            },
                        ),
                    );
                }
            },
        }
    }
    assert(privileges@.take(privileges@.len() as int) =~= privileges@);
    Some(Ok(()))
}

/// Checks if roles have the privileges that are required of them. If not, an error is returned.
pub fn check_object_privileges(
    catalog: &SessionCatalog,
    privileges: Vec<Requirement>,
    role_memberships: Vec<RoleMembership>,
) -> (checked: Result<(), UnauthorizedError>)
    requires
        !(decide(catalog@, table(role_memberships@), privileges@) is Unknown),
    ensures
        match decide(catalog@, table(role_memberships@), privileges@) {
            Decision::Granted => checked == Ok::<(), UnauthorizedError>(()),
            Decision::Denied(id) => checked matches Err(error) && error@ == (
            UnauthorizedView::Privilege { object_description: description(catalog@, id) }),
            Decision::Unknown => false,
        },
{
    try_check_object_privileges(catalog, privileges, role_memberships).unwrap()
}

/// Whether a plan alters the default privileges for all roles, those to come included.
pub open spec fn alters_public_defaults(plan: Plan) -> bool {
    plan matches Plan::AlterDefaultPrivileges(plan) && exists|i: int|
        0 <= i < plan.privilege_objects@.len() && (#[trigger] plan.privilege_objects@[i]).role_id
            == RoleId::Public
}

/// The names of roles.
pub open spec fn role_names(catalog: CatalogView, roles: Seq<RoleId>) -> Seq<Seq<char>> {
    Seq::new(roles.len(), |i: int| catalog.roles[roles[i]].name)
}

/// The roles that one must be a member of to execute a plan but is not, in order.
pub open spec fn unheld_roles(
    conns: Map<u32, ConnMeta>,
    plan: Plan,
    membership: Set<RoleId>,
) -> Seq<RoleId> {
    in_order(required_roles(plan, conns).to_set().difference(membership))
}

/// Whether a catalog knows all of some roles.
pub open spec fn roles_known(catalog: CatalogView, roles: Seq<RoleId>) -> bool {
    forall|i: int| 0 <= i < roles.len() ==> catalog.roles.contains_key(#[trigger] roles[i])
}

/// Whether a catalog knows all of some objects, as far as it knows who owns them.
pub open spec fn owners_known(catalog: CatalogView, ids: Seq<ObjectId>) -> bool {
    forall|i: int|
        0 <= i < ids.len() ==> catalog.entries.contains_key(#[trigger] ids[i]) || ids[i] is Role
}

/// Whether a session that is neither exempt nor without a role may execute a plan, or why not.
/// `None` if the catalog does not know something on which that depends.
pub open spec fn restricted_decision(
    conns: Map<u32, ConnMeta>,
    catalog: CatalogView,
    role: RoleId,
    plan: Plan,
    target_cluster: Option<ClusterId>,
    depends_on: Seq<GlobalId>,
) -> Option<Result<(), UnauthorizedView>> {
    let membership = catalog.roles[role].membership;
    let unheld = unheld_roles(conns, plan, membership);
    let owned = required_ownership(plan);
    if unheld.len() > 0 {
        if roles_known(catalog, unheld) {
            Some(
                Err(UnauthorizedView::RoleMembership { role_names: role_names(catalog, unheld) }),
            )
        } else {
            None
        }
    } else if !owners_known(catalog, owned) {
        None
    } else if unowned(catalog, owned, membership).len() > 0 {
        Some(
            Err(
                UnauthorizedView::Ownership {
                    objects: descriptions(catalog, unowned(catalog, owned, membership)),
                },
            ),
        )
    } else if !plan_known(catalog.items, plan, depends_on, role) {
        None
    } else {
        match decide(
            catalog,
            map![role => membership],
            required_privileges(catalog.items, plan, target_cluster, depends_on, role),
        ) {
            Decision::Unknown => None,
            Decision::Denied(id) => Some(
                Err(
                    UnauthorizedView::Privilege { object_description: description(catalog, id) },
                ),
            ),
            Decision::Granted => if alters_public_defaults(plan) {
                Some(
                    Err(
                        UnauthorizedView::Superuser {
                            action: "ALTER DEFAULT PRIVILEGES FOR ALL ROLES"@,
                        },
                    ),
                )
            } else {
                Some(Ok(()))
            },
        }
    }
}

/// Whether a session may execute a plan, or why not. `None` if the catalog does not know something
/// on which that depends.
pub open spec fn plan_decision(
    conns: Map<u32, ConnMeta>,
    catalog: CatalogView,
    session: Session,
    plan: Plan,
    target_cluster: Option<ClusterId>,
    depends_on: Seq<GlobalId>,
) -> Option<Result<(), AdapterErrorView>> {
    if !catalog.roles.contains_key(session.current_role_id) {
        Some(Err(AdapterErrorView::ConcurrentRoleDrop(session.current_role_id)))
    } else if !catalog.roles.contains_key(session.session_role_id) {
        Some(Err(AdapterErrorView::ConcurrentRoleDrop(session.session_role_id)))
    } else if !enabled_for_session(catalog.vars, session) || session.is_superuser {
        Some(Ok(()))
    } else {
        match restricted_decision(
            conns,
            catalog,
            session.current_role_id,
            plan,
            target_cluster,
            depends_on,
        ) {
            Some(Ok(())) => Some(Ok(())),
            Some(Err(error)) => Some(Err(AdapterErrorView::Unauthorized(error))),
            None => None,
        }
    }
}

/// What the coordinator of the sessions knows.
#[derive(Debug)]
pub struct Coordinator {
    /// The connections that are in use.
    pub active_conns: BTreeMap<u32, ConnMeta>,
}

/// Collects the names of roles, unless one is unknown.
fn try_role_names(catalog: &SessionCatalog, roles: &Vec<RoleId>) -> (names: Option<Vec<String>>)
    ensures
        match names {
            Some(names) => roles_known(catalog@, roles@) && texts(names@) == role_names(
                catalog@,
                roles@,
            ),
            None => !roles_known(catalog@, roles@),
        },
{
    let mut names: Vec<String> = Vec::new();
    for i in 0..roles.len()
        invariant
            forall|j: int| 0 <= j < i ==> catalog@.roles.contains_key(#[trigger] roles@[j]),
            texts(names@) == role_names(catalog@, roles@).take(i as int),
    {
        match catalog.try_get_role(&roles[i]) {
            None => {
                assert(!catalog@.roles.contains_key(roles@[i as int]));
                return None;
            },
            Some(role) => {
                let ghost before = names@;
                names.push(role.name.clone());
                assert(texts(names@) =~= texts(before).push(names@.last()@));
                assert(texts(names@) =~= role_names(catalog@, roles@).take(i + 1));
            },
        }
    }
    assert(texts(names@) =~= role_names(catalog@, roles@));
    Some(names)
}

/// Collects those of `ids` that none of `roles` owns, unless one is unknown.
fn try_unowned(catalog: &SessionCatalog, ids: &Vec<ObjectId>, roles: &IdSet<RoleId>) -> (unheld:
    Option<Vec<ObjectId>>)
    ensures
        match unheld {
            Some(unheld) => owners_known(catalog@, ids@) && unheld@ == unowned(
                catalog@,
                ids@,
                roles@,
            ) && forall|i: int|
                0 <= i < unheld@.len() ==> catalog@.entries.contains_key(#[trigger] unheld@[i]),
            None => !owners_known(catalog@, ids@),
        },
{
    let mut unheld: Vec<ObjectId> = Vec::new();
    assert(ids@.take(0) =~= Seq::empty());
    for i in 0..ids.len()
        invariant
            owners_known(catalog@, ids@.take(i as int)),
            unheld@ == unowned(catalog@, ids@.take(i as int), roles@),
            forall|j: int|
                0 <= j < unheld@.len() ==> catalog@.entries.contains_key(#[trigger] unheld@[j]),
    {
        let id = ids[i];
        proof {
            assert(ids@.take(i + 1).drop_last() =~= ids@.take(i as int));
            assert(ids@.take(i + 1).last() == id);
        }
        if !catalog.has_entry(&id) && !matches!(id, ObjectId::Role(_)) {
            assert(!(catalog@.entries.contains_key(ids@[i as int]) || ids@[i as int] is Role));
            return None;
        }
        if !check_owner_roles(&id, roles, catalog) {
            unheld.push(id);
        }
        assert(unheld@ =~= unowned(catalog@, ids@.take(i + 1), roles@));
        assert forall|j: int| 0 <= j < i + 1 implies catalog@.entries.contains_key(
            #[trigger] ids@.take(i + 1)[j],
        ) || ids@.take(i + 1)[j] is Role by {
            if j < i {
                assert(ids@.take(i as int)[j] == ids@.take(i + 1)[j]);
            }
        };
    }
    assert(ids@.take(ids@.len() as int) =~= ids@);
    Some(unheld)
}

/// Whether default privileges for all roles are among some.
fn any_public(objects: &Vec<DefaultPrivilegeObject>) -> (b: bool)
    ensures
        b == exists|i: int|
            0 <= i < objects@.len() && (#[trigger] objects@[i]).role_id == RoleId::Public,
{
    for i in 0..objects.len()
        invariant
            forall|j: int| 0 <= j < i ==> (#[trigger] objects@[j]).role_id != RoleId::Public,
    {
        if objects[i].role_id.is_public() {
            return true;
        }
    }
    false
}

/// Checks if the role `role_id` is authorized to execute a plan. If not, an error is returned, and
/// nothing if the catalog does not know something on which that depends.
fn try_check_restricted(
    coord: &Coordinator,
    catalog: &SessionCatalog,
    role_id: RoleId,
    plan: &Plan,
    target_cluster_id: Option<ClusterId>,
    depends_on: &Vec<GlobalId>,
) -> (checked: Option<Result<(), UnauthorizedError>>)
    requires
        catalog@.roles.contains_key(role_id),
    ensures
        match restricted_decision(
            coord.active_conns@,
            catalog@,
            role_id,
            *plan,
            target_cluster_id,
            depends_on@,
        ) {
            Some(Ok(())) => checked == Some(Ok::<(), UnauthorizedError>(())),
            Some(Err(error)) => checked matches Some(Err(e)) && e@ == error,
            None => checked is None,
        },
{
    // Obtain all roles that the role is a member of.
    let role_membership = catalog.collect_role_membership(&role_id);

    // Validate that the role has the required role membership to execute the provided plan.
    let required_membership = IdSet::from_ids(
        &generate_required_role_membership(plan, &coord.active_conns),
    );
    let unheld_membership = required_membership.difference(&role_membership);
    if unheld_membership.len() > 0 {
        return match try_role_names(catalog, &unheld_membership) {
            Some(role_names) => Some(Err(UnauthorizedError::RoleMembership { role_names })),
            None => None,
        };
    }
    // Validate that the role has the required object ownership to execute the provided plan.
    let required_objects = generate_required_ownership(plan);
    match try_unowned(catalog, &required_objects, &role_membership) {
        None => {
            return None;
        },
        Some(unheld_ownership) => {
            if let Err(error) = ownership_err(unheld_ownership, catalog) {
                return Some(Err(error));
            }
        },
    }
    // Validate that everyone concerned has the required privileges.
    if !is_plan_known(catalog, plan, depends_on, role_id) {
        return None;
    }
    let privileges = generate_required_privileges(
        catalog,
        plan,
        target_cluster_id,
        depends_on,
        role_id,
    );
    let ghost membership = role_membership@;
    let mut role_memberships: Vec<RoleMembership> = Vec::new();
    role_memberships.push(RoleMembership { role_id, membership: role_membership });
    proof {
        assert(role_memberships@.drop_last() =~= Seq::empty());
        assert(table(Seq::<RoleMembership>::empty()) =~= Map::empty());
        assert(table(role_memberships@) =~= map![role_id => membership]);
    }
    match try_check_object_privileges(catalog, privileges, role_memberships) {
        None => {
            return None;
        },
        Some(Err(error)) => {
            return Some(Err(error));
        },
        Some(Ok(())) => {},
    }
    // Altering the default privileges for all roles affects roles that do not exist yet. No role
    // can be a member of such a role, so only superusers can do it.
    if let Plan::AlterDefaultPrivileges(plan) = plan {
        if any_public(&plan.privilege_objects) {
            return Some(
                Err(
                    UnauthorizedError::Superuser {
                        action: String::from_str("ALTER DEFAULT PRIVILEGES FOR ALL ROLES"),
                    },
                ),
            );
        }
    }
    Some(Ok(()))
}

/// Checks if a session is authorized to execute a plan. If not, an error is returned, and nothing
/// if the catalog does not know something on which that depends.
pub fn try_check_plan(
    coord: &Coordinator,
    catalog: &SessionCatalog,
    session: &Session,
    plan: &Plan,
    target_cluster_id: Option<ClusterId>,
    depends_on: &Vec<GlobalId>,
) -> (checked: Option<Result<(), AdapterError>>)
    ensures
        match plan_decision(
            coord.active_conns@,
            catalog@,
            *session,
            *plan,
            target_cluster_id,
            depends_on@,
        ) {
            Some(Ok(())) => checked == Some(Ok::<(), AdapterError>(())),
            Some(Err(error)) => checked matches Some(Err(e)) && e@ == error,
            None => checked is None,
        },
{
    // It is safer to have users authenticate again when their role was dropped than to let them
    // do some things without one.
    if catalog.try_get_role(&session.current_role_id).is_none() {
        return Some(Err(AdapterError::ConcurrentRoleDrop(session.current_role_id)));
    }
    if catalog.try_get_role(&session.session_role_id).is_none() {
        return Some(Err(AdapterError::ConcurrentRoleDrop(session.session_role_id)));
    }
    if !is_rbac_enabled_for_session(&catalog.system_vars(), session) {
        return Some(Ok(()));
    }
    if session.is_superuser {
        return Some(Ok(()));
    }
    match try_check_restricted(
        coord,
        catalog,
        session.current_role_id,
        plan,
        target_cluster_id,
        depends_on,
    ) {
        Some(Ok(())) => Some(Ok(())),
        Some(Err(error)) => Some(Err(AdapterError::Unauthorized(error))),
        None => None,
    }
}

/// Checks if a session is authorized to execute a plan. If not, an error is returned.
pub fn check_plan(
    coord: &Coordinator,
    catalog: &SessionCatalog,
    session: &Session,
    plan: &Plan,
    target_cluster_id: Option<ClusterId>,
    depends_on: &Vec<GlobalId>,
) -> (checked: Result<(), AdapterError>)
    requires
        plan_decision(
            coord.active_conns@,
            catalog@,
            *session,
            *plan,
            target_cluster_id,
            depends_on@,
        ) is Some,
    ensures
        match plan_decision(
            coord.active_conns@,
            catalog@,
            *session,
            *plan,
            target_cluster_id,
            depends_on@,
        ) {
            Some(Ok(())) => checked == Ok::<(), AdapterError>(()),
            Some(Err(error)) => checked matches Err(e) && e@ == error,
            None => false,
        },
{
    try_check_plan(coord, catalog, session, plan, target_cluster_id, depends_on).unwrap()
}

} // verus!
