//! Sessions, the commands they send, and whether access control is turned on for them.

use crate::catalog::{SessionCatalog, SystemVars};
use crate::error::UnauthorizedError;
use crate::ids::RoleId;
use vstd::prelude::*;

verus! {

/// A session of a user.
#[derive(Clone, Copy, Debug, PartialEq, Eq, Structural)]
pub struct Session {
    /// The role that the session acts as.
    pub current_role_id: RoleId,
    /// The role that the session started as.
    pub session_role_id: RoleId,
    /// Whether the user is a superuser.
    pub is_superuser: bool,
    /// The switch that turns access control on for this session.
    pub enable_session_rbac_checks: bool,
}

/// A command of a client.
#[derive(Clone, Copy, Debug, PartialEq, Eq, Structural)]
pub enum Command {
    Startup { session: Session },
    Declare { session: Session },
    Prepare { session: Session },
    VerifyPreparedStatement { session: Session },
    Execute { session: Session },
    Commit { session: Session },
    CancelRequest,
    PrivilegedCancelRequest,
    DumpCatalog { session: Session },
    CopyRows { session: Session },
    GetSystemVars { session: Session },
    SetSystemVars { session: Session },
    Terminate { session: Session },
}

impl Command {
    /// The session that the command belongs to, if it belongs to one.
    pub open spec fn of_session(self) -> Option<Session> {
        match self {
            Command::Startup { session }
            | Command::Declare { session }
            | Command::Prepare { session }
            | Command::VerifyPreparedStatement { session }
            | Command::Execute { session }
            | Command::Commit { session }
            | Command::DumpCatalog { session }
            | Command::CopyRows { session }
            | Command::GetSystemVars { session }
            | Command::SetSystemVars { session }
            | Command::Terminate { session } => Some(session),
            Command::CancelRequest | Command::PrivilegedCancelRequest => None,
        }
    }

    /// The session that the command belongs to, if it belongs to one.
    pub fn session(&self) -> (session: Option<Session>)
        ensures
            session == self.of_session(),
    {
        match self {
            Command::Startup { session }
            | Command::Declare { session }
            | Command::Prepare { session }
            | Command::VerifyPreparedStatement { session }
            | Command::Execute { session }
            | Command::Commit { session }
            | Command::DumpCatalog { session }
            | Command::CopyRows { session }
            | Command::GetSystemVars { session }
            | Command::SetSystemVars { session }
            | Command::Terminate { session } => Some(*session),
            Command::CancelRequest | Command::PrivilegedCancelRequest => None,
        }
    }
}

/// Whether access control is turned on for a session.
pub open spec fn enabled_for_session(vars: SystemVars, session: Session) -> bool {
    vars.enable_ld_rbac_checks && (vars.enable_rbac_checks || session.enable_session_rbac_checks)
}

/// Whether access control is turned on for the system.
pub open spec fn enabled_for_system(vars: SystemVars) -> bool {
    vars.enable_ld_rbac_checks && vars.enable_rbac_checks
}

/// Returns true if access control is turned on for a session, false otherwise.
pub fn is_rbac_enabled_for_session(system_vars: &SystemVars, session: &Session) -> (b: bool)
    ensures
        b == enabled_for_session(*system_vars, *session),
{
    // The first switch turns the feature off for everyone, should that be needed. One of the
    // others must still be on: the server's for everyone, the session's for just that session.
    system_vars.enable_ld_rbac_checks && (system_vars.enable_rbac_checks
        || session.enable_session_rbac_checks)
}

/// Returns true if access control is turned on for the system, false otherwise.
pub fn is_rbac_enabled_for_system(system_vars: &SystemVars) -> (b: bool)
    ensures
        b == enabled_for_system(*system_vars),
{
    system_vars.enable_ld_rbac_checks && system_vars.enable_rbac_checks
}

/// Whether access control is turned on for a command.
pub open spec fn enabled_for_command(vars: SystemVars, cmd: Command) -> bool {
    match cmd.of_session() {
        Some(session) => enabled_for_session(vars, session),
        None => enabled_for_system(vars),
    }
}

/// Whether a command may be executed: the catalog is dumped for superusers only.
pub open spec fn command_allowed(vars: SystemVars, cmd: Command) -> bool {
    enabled_for_command(vars, cmd) && cmd is DumpCatalog ==> cmd->DumpCatalog_session.is_superuser
}

/// Checks if a session is authorized to execute a command. If not, an error is returned.
pub fn check_command(catalog: &SessionCatalog, cmd: &Command) -> (checked: Result<
    (),
    UnauthorizedError,
>)
    ensures
        match checked {
            Ok(()) => command_allowed(catalog@.vars, *cmd),
            Err(UnauthorizedError::Superuser { action }) => !command_allowed(catalog@.vars, *cmd)
                && action@ == "dump catalog"@,
            Err(_) => false,
        },
{
    if let Some(session) = cmd.session() {
        if !is_rbac_enabled_for_session(&catalog.system_vars(), &session) {
            return Ok(());
        }
    } else if !is_rbac_enabled_for_system(&catalog.system_vars()) {
        return Ok(());
    }
    match cmd {
        Command::DumpCatalog { session } => {
            if session.is_superuser {
                Ok(())
            } else {
                Err(UnauthorizedError::Superuser { action: String::from_str("dump catalog") })
            }
        },
        Command::Startup { .. }
        | Command::Declare { .. }
        | Command::Prepare { .. }
        | Command::VerifyPreparedStatement { .. }
        | Command::Execute { .. }
        | Command::Commit { .. }
        | Command::CancelRequest
        | Command::PrivilegedCancelRequest
        | Command::CopyRows { .. }
        | Command::GetSystemVars { .. }
        | Command::SetSystemVars { .. }
        | Command::Terminate { .. } => Ok(()),
    }
}

} // verus!
