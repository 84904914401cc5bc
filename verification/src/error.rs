//! Errors of those who try what they may not.

use crate::acl::ObjectType;
use crate::catalog::{CatalogView, SessionCatalog};
use crate::ids::{RoleId, SystemObjectId};
use crate::text::{in_quotes, join, joined, quoted, texts};
use vstd::prelude::*;

verus! {

/// The object that an error is about, for messages.
#[derive(Debug)]
pub enum ErrorMessageObjectDescription {
    Object { object_type: ObjectType, object_name: String },
    System,
}

/// The object that an error is about.
pub enum DescriptionView {
    Object { object_type: ObjectType, object_name: Seq<char> },
    System,
}

impl View for ErrorMessageObjectDescription {
    type V = DescriptionView;

    open spec fn view(&self) -> DescriptionView {
        match self {
            ErrorMessageObjectDescription::Object { object_type, object_name } => {
                DescriptionView::Object { object_type: *object_type, object_name: object_name@ }
            },
            ErrorMessageObjectDescription::System => DescriptionView::System,
        }
    }
}

/// The word for a type of object.
pub open spec fn type_word(object_type: ObjectType) -> Seq<char> {
    match object_type {
        ObjectType::Table => "TABLE"@,
        ObjectType::View => "VIEW"@,
        ObjectType::MaterializedView => "MATERIALIZED VIEW"@,
        ObjectType::Source => "SOURCE"@,
        ObjectType::Sink => "SINK"@,
        ObjectType::Index => "INDEX"@,
        ObjectType::Type => "TYPE"@,
        ObjectType::Role => "ROLE"@,
        ObjectType::Cluster => "CLUSTER"@,
        ObjectType::ClusterReplica => "CLUSTER REPLICA"@,
        ObjectType::Secret => "SECRET"@,
        ObjectType::Connection => "CONNECTION"@,
        ObjectType::Database => "DATABASE"@,
        ObjectType::Schema => "SCHEMA"@,
        ObjectType::Func => "FUNCTION"@,
    }
}

impl ObjectType {
    /// The word for the type.
    pub fn as_str(&self) -> (word: &'static str)
        ensures
            word@ == type_word(*self),
    {
        match self {
            ObjectType::Table => "TABLE",
            ObjectType::View => "VIEW",
            ObjectType::MaterializedView => "MATERIALIZED VIEW",
            ObjectType::Source => "SOURCE",
            ObjectType::Sink => "SINK",
            ObjectType::Index => "INDEX",
            ObjectType::Type => "TYPE",
            ObjectType::Role => "ROLE",
            ObjectType::Cluster => "CLUSTER",
            ObjectType::ClusterReplica => "CLUSTER REPLICA",
            ObjectType::Secret => "SECRET",
            ObjectType::Connection => "CONNECTION",
            ObjectType::Database => "DATABASE",
            ObjectType::Schema => "SCHEMA",
            ObjectType::Func => "FUNCTION",
        }
    }
}

/// What a catalog says of an object in messages.
pub open spec fn description(catalog: CatalogView, id: SystemObjectId) -> DescriptionView {
    match id {
        SystemObjectId::Object(id) => DescriptionView::Object {
            object_type: catalog.entries[id].object_type,
            object_name: catalog.entries[id].name,
        },
        SystemObjectId::System => DescriptionView::System,
    }
}

impl DescriptionView {
    /// The description in a message.
    pub open spec fn text(self) -> Seq<char> {
        match self {
            DescriptionView::Object { object_type, object_name } => type_word(object_type) + " "@
                + in_quotes(object_name),
            DescriptionView::System => "SYSTEM"@,
        }
    }
}

impl ErrorMessageObjectDescription {
    /// Describes an object that exists, or the system.
    pub fn from_id(object_id: &SystemObjectId, catalog: &SessionCatalog) -> (d: Self)
        requires
            object_id.object() matches Some(id) ==> catalog@.entries.contains_key(id),
        ensures
            d@ == description(catalog@, *object_id),
    {
        match object_id {
            SystemObjectId::Object(id) => {
                let (object_type, object_name) = catalog.describe(id);
                ErrorMessageObjectDescription::Object { object_type, object_name }
            },
            SystemObjectId::System => ErrorMessageObjectDescription::System,
        }
    }

    /// The description in a message.
    pub fn to_text(&self) -> (text: String)
        ensures
            text@ == self@.text(),
    {
        match self {
            ErrorMessageObjectDescription::Object { object_type, object_name } => {
                let name = quoted(object_name.as_str());
                String::from_str(object_type.as_str()).concat(" ").concat(name.as_str())
            },
            ErrorMessageObjectDescription::System => String::from_str("SYSTEM"),
        }
    }
}

/// Errors that can occur due to an unauthorized action.
#[derive(Debug)]
pub enum UnauthorizedError {
    /// The action can only be performed by a superuser.
    Superuser { action: String },
    /// The action requires ownership of an object.
    Ownership { objects: Vec<(ObjectType, String)> },
    /// Altering an owner requires membership of the new owner role.
    RoleMembership { role_names: Vec<String> },
    /// The action requires one or more privileges.
    Privilege { object_description: ErrorMessageObjectDescription },
    /// The action can only be performed by the mz_system role.
    MzSystem { action: String },
    /// The action cannot be performed by the mz_introspection role.
    MzIntrospection { action: String },
}

/// Errors that can occur due to an unauthorized action.
pub enum UnauthorizedView {
    Superuser { action: Seq<char> },
    Ownership { objects: Seq<(ObjectType, Seq<char>)> },
    RoleMembership { role_names: Seq<Seq<char>> },
    Privilege { object_description: DescriptionView },
    MzSystem { action: Seq<char> },
    MzIntrospection { action: Seq<char> },
}

/// Objects with the text of their names.
pub open spec fn named(objects: Seq<(ObjectType, String)>) -> Seq<(ObjectType, Seq<char>)> {
    Seq::new(objects.len(), |i: int| (objects[i].0, objects[i].1@))
}

impl View for UnauthorizedError {
    type V = UnauthorizedView;

    open spec fn view(&self) -> UnauthorizedView {
        match self {
            UnauthorizedError::Superuser { action } => UnauthorizedView::Superuser {
                action: action@,
            },
            UnauthorizedError::Ownership { objects } => UnauthorizedView::Ownership {
                objects: named(objects@),
            },
            UnauthorizedError::RoleMembership { role_names } => UnauthorizedView::RoleMembership {
                role_names: texts(role_names@),
            },
            UnauthorizedError::Privilege { object_description } => UnauthorizedView::Privilege {
                object_description: object_description@,
            },
            UnauthorizedError::MzSystem { action } => UnauthorizedView::MzSystem {
                action: action@,
            },
            UnauthorizedError::MzIntrospection { action } => UnauthorizedView::MzIntrospection {
                action: action@,
            },
        }
    }
}

impl UnauthorizedView {
    /// The message.
    pub open spec fn message(self) -> Seq<char> {
        match self {
            UnauthorizedView::Superuser { action } => "permission denied to "@ + action,
            UnauthorizedView::Ownership { objects } => "must be owner of "@ + joined(
                Seq::new(
                    objects.len(),
                    |i: int| type_word(objects[i].0) + " "@ + objects[i].1,
                ),
                ", "@,
            ),
            UnauthorizedView::RoleMembership { role_names } => "must be a member of "@ + joined(
                Seq::new(role_names.len(), |i: int| in_quotes(role_names[i])),
                ", "@,
            ),
            UnauthorizedView::Privilege { object_description } => "permission denied for "@
                + object_description.text(),
            UnauthorizedView::MzSystem { action } => "permission denied to "@ + action,
            UnauthorizedView::MzIntrospection { action } => "permission denied to "@ + action,
        }
    }

    /// What there is to say beside the message.
    pub open spec fn details(self) -> Option<Seq<char>> {
        match self {
            UnauthorizedView::Superuser { action } => Some(
                "You must be a superuser to "@ + action,
            ),
            UnauthorizedView::MzSystem { .. } => Some("You must be the 'mz_system' role"@),
            UnauthorizedView::MzIntrospection { .. } => Some(
                "The 'mz_introspection' role has very limited privileges"@,
            ),
            UnauthorizedView::Ownership { .. }
            | UnauthorizedView::RoleMembership { .. }
            | UnauthorizedView::Privilege { .. } => None,
        }
    }
}

impl UnauthorizedError {
    /// What there is to say to the user beside the message.
    pub fn detail(&self) -> (detail: Option<String>)
        ensures
            match detail {
                Some(text) => self@.details() == Some(text@),
                None => self@.details() is None,
            },
    {
        match self {
            UnauthorizedError::Superuser { action } => Some(
                String::from_str("You must be a superuser to ").concat(action.as_str()),
            ),
            UnauthorizedError::MzSystem { .. } => Some(
                String::from_str("You must be the 'mz_system' role"),
            ),
            UnauthorizedError::MzIntrospection { .. } => Some(
                String::from_str("The 'mz_introspection' role has very limited privileges"),
            ),
            UnauthorizedError::Ownership { .. }
            | UnauthorizedError::RoleMembership { .. }
            | UnauthorizedError::Privilege { .. } => None,
        }
    }

    /// The message for the user.
    pub fn message(&self) -> (message: String)
        ensures
            message@ == self@.message(),
    {
        match self {
            UnauthorizedError::Superuser { action }
            | UnauthorizedError::MzSystem { action }
            | UnauthorizedError::MzIntrospection { action } => String::from_str(
                "permission denied to ",
            ).concat(action.as_str()),
            UnauthorizedError::Ownership { objects } => {
                let mut parts: Vec<String> = Vec::new();
                for i in 0..objects.len()
                    invariant
                        parts@.len() == i,
                        forall|j: int|
                            0 <= j < i ==> (#[trigger] parts@[j])@ == type_word(objects@[j].0)
                                + " "@ + objects@[j].1@,
                {
                    let word = objects[i].0.as_str();
                    parts.push(
                        String::from_str(word).concat(" ").concat(objects[i].1.as_str()),
                    );
                }
                let list = join(&parts, ", ");
                let ghost view = named(objects@);
                assert(texts(parts@) =~= Seq::new(
                    view.len(),
                    |i: int| type_word(view[i].0) + " "@ + view[i].1,
                ));
                String::from_str("must be owner of ").concat(list.as_str())
            },
            UnauthorizedError::RoleMembership { role_names } => {
                let mut parts: Vec<String> = Vec::new();
                for i in 0..role_names.len()
                    invariant
                        parts@.len() == i,
                        forall|j: int|
                            0 <= j < i ==> (#[trigger] parts@[j])@ == in_quotes(role_names@[j]@),
                {
                    parts.push(quoted(role_names[i].as_str()));
                }
                let list = join(&parts, ", ");
                let ghost view = texts(role_names@);
                assert(texts(parts@) =~= Seq::new(view.len(), |i: int| in_quotes(view[i])));
                String::from_str("must be a member of ").concat(list.as_str())
            },
            UnauthorizedError::Privilege { object_description } => {
                let object = object_description.to_text();
                String::from_str("permission denied for ").concat(object.as_str())
            },
        }
    }
}

/// Why a plan is not executed.
#[derive(Debug)]
pub enum AdapterError {
    /// A role of the session was dropped since the session started.
    ConcurrentRoleDrop(RoleId),
    /// The session is not authorized to execute the plan.
    Unauthorized(UnauthorizedError),
}

/// Why a plan is not executed.
pub enum AdapterErrorView {
    ConcurrentRoleDrop(RoleId),
    Unauthorized(UnauthorizedView),
}

impl View for AdapterError {
    type V = AdapterErrorView;

    open spec fn view(&self) -> AdapterErrorView {
        match self {
            AdapterError::ConcurrentRoleDrop(role_id) => AdapterErrorView::ConcurrentRoleDrop(
                *role_id,
            ),
            AdapterError::Unauthorized(error) => AdapterErrorView::Unauthorized(error@),
        }
    }
}

} // verus!
