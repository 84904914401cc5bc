//! The roles that one must be a member of to execute a plan.

use crate::ids::RoleId;
use crate::plan::{DefaultPrivilegeObject, Plan, SideEffectingFunc};
use std::collections::BTreeMap;
use vstd::prelude::*;

verus! {

/// What is known of a connection that is in use.
#[derive(Clone, Copy, Debug, PartialEq, Eq, Structural)]
pub struct ConnMeta {
    /// The role that the user on the connection authenticated as.
    pub authenticated_role: RoleId,
}

/// The roles that default privileges are about.
pub open spec fn default_roles(objects: Seq<DefaultPrivilegeObject>) -> Seq<RoleId> {
    Seq::new(objects.len(), |i: int| objects[i].role_id)
}

/// The roles that one must be a member of to execute `plan`.
pub open spec fn required_roles(plan: Plan, conns: Map<u32, ConnMeta>) -> Seq<RoleId> {
    match plan {
        Plan::AlterOwner(plan) => seq![plan.new_owner],
        Plan::DropOwned(plan) => plan.role_ids@,
        Plan::ReassignOwned(plan) => plan.old_roles@.push(plan.new_role),
        Plan::AlterDefaultPrivileges(plan) => default_roles(plan.privilege_objects@),
        Plan::SideEffectingFunc(SideEffectingFunc::PgCancelBackend { connection_id }) => {
            if conns.contains_key(connection_id) {
                seq![conns[connection_id].authenticated_role]
            } else {
                seq![]
            }
        },
        _ => seq![],
    }
}

/// Copies a list of roles.
fn copy_roles(roles: &Vec<RoleId>) -> (copy: Vec<RoleId>)
    ensures
        copy@ == roles@,
{
    let copy = roles.clone();
    assert(copy@ =~= roles@);
    copy
}

/// Generates the role membership required to execute a given plan.
pub fn generate_required_role_membership(
    plan: &Plan,
    active_conns: &BTreeMap<u32, ConnMeta>,
) -> (roles: Vec<RoleId>)
    ensures
        roles@ == required_roles(*plan, active_conns@),
{
    match plan {
        Plan::AlterOwner(plan) => {
            let mut roles: Vec<RoleId> = Vec::new();
            roles.push(plan.new_owner);
            assert(roles@ =~= seq![plan.new_owner]);
            roles
        },
        Plan::DropOwned(plan) => copy_roles(&plan.role_ids),
        Plan::ReassignOwned(plan) => {
            let mut roles = copy_roles(&plan.old_roles);
            roles.push(plan.new_role);
            roles
        },
        Plan::AlterDefaultPrivileges(plan) => {
            let mut roles: Vec<RoleId> = Vec::new();
            for i in 0..plan.privilege_objects.len()
                invariant
                    roles@ == default_roles(plan.privilege_objects@).take(i as int),
            {
                roles.push(plan.privilege_objects[i].role_id);
                assert(roles@ =~= default_roles(plan.privilege_objects@).take(i + 1));
            }
            assert(roles@ =~= default_roles(plan.privilege_objects@));
            roles
        },
        Plan::SideEffectingFunc(SideEffectingFunc::PgCancelBackend { connection_id }) => {
            let mut roles: Vec<RoleId> = Vec::new();
            if let Some(conn) = active_conns.get(connection_id) {
                roles.push(conn.authenticated_role);
            }
            assert(roles@ =~= required_roles(
                Plan::SideEffectingFunc(
                    SideEffectingFunc::PgCancelBackend { connection_id: *connection_id },
                ),
                active_conns@,
            ));
            roles
        },
        Plan::CreateConnection(_)
        | Plan::CreateDatabase
        | Plan::CreateSchema(_)
        | Plan::CreateRole
        | Plan::CreateCluster
        | Plan::CreateClusterReplica(_)
        | Plan::CreateSource(_)
        | Plan::CreateSources(_)
        | Plan::CreateSecret(_)
        | Plan::CreateSink(_)
        | Plan::CreateTable(_)
        | Plan::CreateView(_)
        | Plan::CreateMaterializedView(_)
        | Plan::CreateIndex(_)
        | Plan::CreateType(_)
        | Plan::DiscardTemp
        | Plan::DiscardAll
        | Plan::DropObjects(_)
        | Plan::EmptyQuery
        | Plan::ShowAllVariables
        | Plan::ShowCreate(_)
        | Plan::ShowVariable
        | Plan::InspectShard
        | Plan::SetVariable
        | Plan::ResetVariable
        | Plan::SetTransaction
        | Plan::StartTransaction
        | Plan::CommitTransaction
        | Plan::AbortTransaction
        | Plan::Select(_)
        | Plan::Subscribe
        | Plan::CopyFrom(_)
        | Plan::CopyRows
        | Plan::Explain
        | Plan::Insert(_)
        | Plan::AlterClusterRename(_)
        | Plan::AlterClusterReplicaRename(_)
        | Plan::AlterCluster(_)
        | Plan::AlterNoop
        | Plan::AlterIndexSetOptions(_)
        | Plan::AlterIndexResetOptions(_)
        | Plan::AlterSink(_)
        | Plan::AlterSource(_)
        | Plan::AlterItemRename(_)
        | Plan::AlterSecret(_)
        | Plan::AlterSystemSet
        | Plan::AlterSystemReset
        | Plan::AlterSystemResetAll
        | Plan::AlterRole
        | Plan::Declare
        | Plan::Fetch
        | Plan::Close
        | Plan::ReadThenWrite(_)
        | Plan::Prepare
        | Plan::Execute
        | Plan::Deallocate
        | Plan::Raise
        | Plan::RotateKeys(_)
        | Plan::GrantRole
        | Plan::RevokeRole
        | Plan::GrantPrivileges(_)
        | Plan::RevokePrivileges(_)
        | Plan::ValidateConnection(_) => Vec::new(),
    }
}

} // verus!
