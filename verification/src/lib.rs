//! Role-based access control for a SQL database: who may execute which command and which plan, what
//! users are told when they may not, and how a server deals with a connection before a session
//! starts.

pub mod acl;
pub mod catalog;
pub mod catalog_laws;
pub mod check;
pub mod error;
pub mod grant_laws;
pub mod id_set;
pub mod ids;
pub mod laws;
pub mod membership;
pub mod message_laws;
pub mod ownership;
pub mod plan;
pub mod plan_laws;
pub mod privilege_laws;
pub mod privileges;
pub mod read_laws;
pub mod reads;
pub mod record;
pub mod server;
pub mod session;
pub mod text;
pub mod usage;
