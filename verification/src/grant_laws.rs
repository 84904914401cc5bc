//! What privileges there are, and who has them.

use crate::acl::{
    builtin_privileges_of, privileges_of, AclMode, CatalogItemType, MzAclItem, ObjectType,
    Privilege, SystemObjectType,
};
use crate::catalog::CatalogView;
use crate::check::{decide, decide_one, granted, membership_of, Decision};
use crate::ids::{RoleId, SystemObjectId};
use crate::reads::Requirement;
use vstd::prelude::*;

verus! {

/// A set of privileges holds each privilege exactly if it is marked as holding it, and sets that
/// hold the same privileges are the same.
pub proof fn law_modes_hold_what_they_mark(mode: AclMode, other: AclMode)
    ensures
        mode@.contains(Privilege::Insert) == mode.insert,
        mode@.contains(Privilege::Select) == mode.select,
        mode@.contains(Privilege::Update) == mode.update,
        mode@.contains(Privilege::Delete) == mode.delete,
        mode@.contains(Privilege::Usage) == mode.usage,
        mode@.contains(Privilege::Create) == mode.create,
        mode@.contains(Privilege::CreateRole) == mode.create_role,
        mode@.contains(Privilege::CreateDb) == mode.create_db,
        mode@.contains(Privilege::CreateCluster) == mode.create_cluster,
        mode@ == other@ ==> mode == other,
{
    assert forall|m: AclMode| ({
        &&& #[trigger] m@.contains(Privilege::Insert) == m.insert
        &&& m@.contains(Privilege::Select) == m.select
        &&& m@.contains(Privilege::Update) == m.update
        &&& m@.contains(Privilege::Delete) == m.delete
        &&& m@.contains(Privilege::Usage) == m.usage
        &&& m@.contains(Privilege::Create) == m.create
        &&& m@.contains(Privilege::CreateRole) == m.create_role
        &&& m@.contains(Privilege::CreateDb) == m.create_db
        &&& m@.contains(Privilege::CreateCluster) == m.create_cluster
    }) by {};
    if mode@ == other@ {
        assert(mode@.contains(Privilege::Insert) == other@.contains(Privilege::Insert));
    }
}

/// The set that holds one privilege alone holds it and no other.
pub proof fn law_one_privilege(privilege: Privilege, other: Privilege)
    ensures
        AclMode::only(privilege)@.contains(other) <==> other == privilege,
{
    crate::acl::lemma_only_holds_one(privilege);
}

/// Whether objects of a type hold rows.
pub open spec fn type_has_rows(object_type: ObjectType) -> bool {
    object_type == ObjectType::Table || object_type == ObjectType::View || object_type
        == ObjectType::MaterializedView || object_type == ObjectType::Source
}

/// Whether objects of a type hold other objects, or run them.
pub open spec fn is_container_type(object_type: ObjectType) -> bool {
    object_type == ObjectType::Cluster || object_type == ObjectType::Database || object_type
        == ObjectType::Schema
}

/// Whether objects of a type are there to be used by others.
pub open spec fn is_used_type(object_type: ObjectType) -> bool {
    object_type == ObjectType::Type || object_type == ObjectType::Secret || object_type
        == ObjectType::Connection
}

/// What each privilege is on: one selects from what holds rows, writes to tables only, uses what is
/// there to be used and what holds others, and makes something in what holds others. The privileges
/// to make roles, databases and clusters are on the system, which has no other.
pub proof fn law_what_privileges_are_on(object_type: ObjectType)
    ensures
        ({
            let object = privileges_of(SystemObjectType::Object(object_type));
            let system = privileges_of(SystemObjectType::System);
            &&& object.contains(Privilege::Select) <==> type_has_rows(object_type)
            &&& object.contains(Privilege::Insert) <==> object_type == ObjectType::Table
            &&& object.contains(Privilege::Update) <==> object_type == ObjectType::Table
            &&& object.contains(Privilege::Delete) <==> object_type == ObjectType::Table
            &&& object.contains(Privilege::Usage) <==> is_used_type(object_type)
                || is_container_type(object_type)
            &&& object.contains(Privilege::Create) <==> is_container_type(object_type)
            &&& !object.contains(Privilege::CreateRole)
            &&& !object.contains(Privilege::CreateDb)
            &&& !object.contains(Privilege::CreateCluster)
            &&& system.contains(Privilege::CreateRole)
            &&& system.contains(Privilege::CreateDb)
            &&& system.contains(Privilege::CreateCluster)
            &&& !system.contains(Privilege::Select)
            &&& !system.contains(Privilege::Insert)
            &&& !system.contains(Privilege::Update)
            &&& !system.contains(Privilege::Delete)
            &&& !system.contains(Privilege::Usage)
            &&& !system.contains(Privilege::Create)
        }),
{
}

/// On what is built in, everybody may select from what holds rows, and use types and schemas, and
/// nothing else.
pub proof fn law_built_in_for_everybody(object_type: ObjectType, privilege: Privilege)
    ensures
        builtin_privileges_of(object_type).contains(privilege) <==> {
            ||| privilege == Privilege::Select && type_has_rows(object_type)
            ||| privilege == Privilege::Usage && (object_type == ObjectType::Type || object_type
                == ObjectType::Schema)
        },
{
}

/// Each type of item is the type of object of the same name.
pub proof fn law_types_of_items(item_type: CatalogItemType)
    ensures
        item_type.object_type() == ObjectType::Table <==> item_type == CatalogItemType::Table,
        item_type.object_type() == ObjectType::Source <==> item_type == CatalogItemType::Source,
        item_type.object_type() == ObjectType::Sink <==> item_type == CatalogItemType::Sink,
        item_type.object_type() == ObjectType::View <==> item_type == CatalogItemType::View,
        item_type.object_type() == ObjectType::MaterializedView <==> item_type
            == CatalogItemType::MaterializedView,
        item_type.object_type() == ObjectType::Index <==> item_type == CatalogItemType::Index,
        item_type.object_type() == ObjectType::Type <==> item_type == CatalogItemType::Type,
        item_type.object_type() == ObjectType::Func <==> item_type == CatalogItemType::Func,
        item_type.object_type() == ObjectType::Secret <==> item_type == CatalogItemType::Secret,
        item_type.object_type() == ObjectType::Connection <==> item_type
            == CatalogItemType::Connection,
        !is_container_type(item_type.object_type()),
{
}

/// Whether someone who is a member of `roles` was granted `privilege`: one of the grants is to one
/// of these roles and lists the privilege itself.
pub open spec fn was_granted(
    acl: Seq<MzAclItem>,
    roles: Set<RoleId>,
    privilege: Privilege,
) -> bool {
    exists|i: int|
        0 <= i < acl.len() && roles.contains((#[trigger] acl[i]).grantee)
            && acl[i].acl_mode@.contains(privilege)
}

/// Who was granted what on an object, going by what the catalog holds.
pub open spec fn grants_on(catalog: CatalogView, id: SystemObjectId) -> Option<Seq<MzAclItem>> {
    match id {
        SystemObjectId::System => Some(catalog.system_acl),
        SystemObjectId::Object(object) => if catalog.entries.contains_key(object) {
            catalog.entries[object].acl
        } else {
            None
        },
    }
}

/// The roles that a role is a member of, where that was looked up before or the catalog knows it.
pub open spec fn roles_of(
    catalog: CatalogView,
    memberships: Map<RoleId, Set<RoleId>>,
    role: RoleId,
) -> Option<Set<RoleId>> {
    if memberships.contains_key(role) {
        Some(memberships[role])
    } else if catalog.roles.contains_key(role) {
        Some(catalog.roles[role].membership)
    } else {
        None
    }
}

/// Whether a role has all the privileges that are required of it: of each, one of the grants on the
/// object is to a role that it is a member of and lists it.
pub open spec fn has_all(
    catalog: CatalogView,
    memberships: Map<RoleId, Set<RoleId>>,
    required: Requirement,
) -> bool {
    forall|p: Privilege| #[trigger]
        required.1@.contains(p) ==> was_granted(
            grants_on(catalog, required.0)->0,
            roles_of(catalog, memberships, required.2)->0,
            p,
        )
}

/// Whether the role and the object that are required of and on are known, and the object is of a
/// kind that has privileges.
pub open spec fn can_tell(
    catalog: CatalogView,
    memberships: Map<RoleId, Set<RoleId>>,
    required: Requirement,
) -> bool {
    roles_of(catalog, memberships, required.2) is Some && grants_on(catalog, required.0) is Some
}

/// A role has what is required of it exactly if each privilege was itself granted on the object to
/// a role that it is a member of. One that lacks one is denied the object. Nothing is decided where
/// the role or the object is unknown.
pub proof fn law_only_what_was_granted(
    catalog: CatalogView,
    memberships: Map<RoleId, Set<RoleId>>,
    required: Requirement,
)
    ensures
        decide_one(catalog, memberships, required) == (if !can_tell(
            catalog,
            memberships,
            required,
        ) {
            Decision::Unknown
        } else if has_all(catalog, memberships, required) {
            Decision::Granted
        } else {
            Decision::Denied(required.0)
        }),
{
    assert(membership_of(catalog, memberships, required.2) == roles_of(
        catalog,
        memberships,
        required.2,
    ));
    assert(catalog.acl(required.0) == grants_on(catalog, required.0));
    if can_tell(catalog, memberships, required) {
        let acl = grants_on(catalog, required.0)->0;
        let roles = roles_of(catalog, memberships, required.2)->0;
        assert forall|p: Privilege| #[trigger]
            granted(acl, roles).contains(p) == was_granted(acl, roles, p) by {};
        if has_all(catalog, memberships, required) {
            assert(required.1@.subset_of(granted(acl, roles)));
        } else {
            let p = choose|p: Privilege| #[trigger]
                required.1@.contains(p) && !was_granted(acl, roles, p);
            assert(required.1@.contains(p) && !granted(acl, roles).contains(p));
        }
    }
}

/// A role that is required to have one privilege is denied the object if no grant on it to a role
/// that it is a member of lists that privilege, whatever else was granted.
pub proof fn law_no_privilege_implies_another(
    catalog: CatalogView,
    memberships: Map<RoleId, Set<RoleId>>,
    id: SystemObjectId,
    privilege: Privilege,
    role: RoleId,
)
    requires
        can_tell(catalog, memberships, (id, AclMode::only(privilege), role)),
        forall|i: int|
            0 <= i < (grants_on(catalog, id)->0).len() && roles_of(
                catalog,
                memberships,
                role,
            )->0.contains((#[trigger] grants_on(catalog, id)->0[i]).grantee) ==> !grants_on(
                catalog,
                id,
            )->0[i].acl_mode@.contains(privilege),
    ensures
        decide_one(catalog, memberships, (id, AclMode::only(privilege), role))
            == Decision::Denied(id),
{
    let required = (id, AclMode::only(privilege), role);
    law_only_what_was_granted(catalog, memberships, required);
    law_one_privilege(privilege, privilege);
    assert(required.1@.contains(privilege));
    if was_granted(
        grants_on(catalog, id)->0,
        roles_of(catalog, memberships, role)->0,
        privilege,
    ) {
        let i = choose|i: int|
            0 <= i < (grants_on(catalog, id)->0).len() && roles_of(
                catalog,
                memberships,
                role,
            )->0.contains((#[trigger] grants_on(catalog, id)->0[i]).grantee) && grants_on(
                catalog,
                id,
            )->0[i].acl_mode@.contains(privilege);
        assert(false);
    }
}

/// Whether the `i`th of some requirements is the first that is not met.
pub open spec fn is_first_unmet(
    catalog: CatalogView,
    memberships: Map<RoleId, Set<RoleId>>,
    required: Seq<Requirement>,
    i: int,
) -> bool {
    &&& 0 <= i < required.len()
    &&& !(can_tell(catalog, memberships, required[i]) && has_all(
        catalog,
        memberships,
        required[i],
    ))
    &&& forall|j: int|
        0 <= j < i ==> can_tell(catalog, memberships, #[trigger] required[j]) && has_all(
            catalog,
            memberships,
            required[j],
        )
}

/// Of several requirements the first that is not met decides: who lacks the privilege is denied the
/// object that it is on, and nothing is decided where something is unknown. Where all are met, all
/// is granted.
pub proof fn law_first_unmet_decides(
    catalog: CatalogView,
    memberships: Map<RoleId, Set<RoleId>>,
    required: Seq<Requirement>,
)
    ensures
        (forall|i: int|
            0 <= i < required.len() ==> can_tell(catalog, memberships, #[trigger] required[i])
                && has_all(catalog, memberships, required[i])) <==> decide(
            catalog,
            memberships,
            required,
        ) == Decision::Granted,
        forall|i: int| #[trigger]
            is_first_unmet(catalog, memberships, required, i) ==> decide(
                catalog,
                memberships,
                required,
            ) == (if can_tell(catalog, memberships, required[i]) {
                Decision::Denied(required[i].0)
            } else {
                Decision::Unknown
            }),
    decreases required.len(),
{
    if required.len() > 0 {
        let front = required.drop_last();
        let last = required.len() - 1;
        law_first_unmet_decides(catalog, memberships, front);
        law_only_what_was_granted(catalog, memberships, required.last());
        assert(required[last] == required.last());
        assert forall|i: int| 0 <= i < front.len() implies #[trigger] required[i] == front[i] by {};
        if forall|i: int|
            0 <= i < required.len() ==> can_tell(catalog, memberships, #[trigger] required[i])
                && has_all(catalog, memberships, required[i]) {
            assert forall|i: int| 0 <= i < front.len() implies can_tell(
                catalog,
                memberships,
                #[trigger] front[i],
            ) && has_all(catalog, memberships, front[i]) by {
                assert(front[i] == required[i]);
            };
            assert(can_tell(catalog, memberships, required[last]));
        } else {
            if decide(catalog, memberships, required) == Decision::Granted {
                assert forall|i: int| 0 <= i < required.len() implies can_tell(
                    catalog,
                    memberships,
                    #[trigger] required[i],
                ) && has_all(catalog, memberships, required[i]) by {
                    if i < last {
                        assert(front[i] == required[i]);
                    }
                };
            }
        }
        assert forall|i: int| #[trigger]
            is_first_unmet(catalog, memberships, required, i) implies decide(
            catalog,
            memberships,
            required,
        ) == (if can_tell(catalog, memberships, required[i]) {
            Decision::Denied(required[i].0)
        } else {
            Decision::Unknown
        }) by {
            if i < last {
                assert forall|j: int| 0 <= j < i implies can_tell(
                    catalog,
                    memberships,
                    #[trigger] front[j],
                ) && has_all(catalog, memberships, front[j]) by {
                    assert(front[j] == required[j]);
                };
                assert(front[i] == required[i]);
                assert(is_first_unmet(catalog, memberships, front, i));
            } else {
                assert forall|j: int| 0 <= j < front.len() implies can_tell(
                    catalog,
                    memberships,
                    #[trigger] front[j],
                ) && has_all(catalog, memberships, front[j]) by {
                    assert(front[j] == required[j]);
                };
            }
        };
    }
}

} // verus!
