//! Privileges, and sets of roles.

use rbac::acl::{
    all_object_privileges, default_builtin_object_privilege, owner_privilege, AclMode, ObjectType,
    Privilege, SystemObjectType,
};
use rbac::id_set::IdSet;
use rbac::ids::{GlobalId, RoleId};

fn mode(privileges: &[Privilege]) -> AclMode {
    privileges.iter().fold(AclMode::empty(), |mode, p| mode.union(AclMode::only(*p)))
}

const OBJECT_TYPES: [ObjectType; 15] = [
    ObjectType::Table,
    ObjectType::View,
    ObjectType::MaterializedView,
    ObjectType::Source,
    ObjectType::Sink,
    ObjectType::Index,
    ObjectType::Type,
    ObjectType::Role,
    ObjectType::Cluster,
    ObjectType::ClusterReplica,
    ObjectType::Secret,
    ObjectType::Connection,
    ObjectType::Database,
    ObjectType::Schema,
    ObjectType::Func,
];

#[test]
fn modes_are_sets() {
    let both = mode(&[Privilege::Usage, Privilege::Create]);
    assert!(both.contains(AclMode::only(Privilege::Usage)));
    assert!(both.contains(both));
    assert!(both.contains(AclMode::empty()));
    assert!(!both.contains(AclMode::only(Privilege::Select)));
    assert!(!AclMode::only(Privilege::Usage).contains(both));
    assert_eq!(both.union(both), both);
}

#[test]
fn every_type_has_its_privileges() {
    let all = |object_type| all_object_privileges(SystemObjectType::Object(object_type));
    let table = mode(&[
        Privilege::Insert,
        Privilege::Select,
        Privilege::Update,
        Privilege::Delete,
    ]);
    let container = mode(&[Privilege::Usage, Privilege::Create]);
    let select = AclMode::only(Privilege::Select);
    let usage = AclMode::only(Privilege::Usage);
    assert_eq!(all(ObjectType::Table), table);
    for t in [ObjectType::View, ObjectType::MaterializedView, ObjectType::Source] {
        assert_eq!(all(t), select);
    }
    for t in [ObjectType::Type, ObjectType::Secret, ObjectType::Connection] {
        assert_eq!(all(t), usage);
    }
    for t in [ObjectType::Cluster, ObjectType::Database, ObjectType::Schema] {
        assert_eq!(all(t), container);
    }
    for t in [
        ObjectType::Sink,
        ObjectType::Index,
        ObjectType::Role,
        ObjectType::ClusterReplica,
        ObjectType::Func,
    ] {
        assert_eq!(all(t), AclMode::empty());
    }
    assert_eq!(
        all_object_privileges(SystemObjectType::System),
        mode(&[Privilege::CreateRole, Privilege::CreateDb, Privilege::CreateCluster])
    );
}

#[test]
fn owners_grant_themselves_everything() {
    for object_type in OBJECT_TYPES {
        let item = owner_privilege(object_type, RoleId::User(5));
        assert_eq!(item.grantee, RoleId::User(5));
        assert_eq!(item.grantor, RoleId::User(5));
        assert_eq!(
            item.acl_mode,
            all_object_privileges(SystemObjectType::Object(object_type))
        );
    }
}

#[test]
fn everybody_can_look_at_what_is_built_in() {
    for object_type in OBJECT_TYPES {
        let item = default_builtin_object_privilege(object_type);
        assert_eq!(item.grantee, RoleId::Public);
        assert_eq!(item.grantor, RoleId::System(1));
        assert!(
            all_object_privileges(SystemObjectType::Object(object_type)).contains(item.acl_mode)
        );
    }
    let granted = |object_type| default_builtin_object_privilege(object_type).acl_mode;
    assert_eq!(granted(ObjectType::Table), AclMode::only(Privilege::Select));
    assert_eq!(granted(ObjectType::Source), AclMode::only(Privilege::Select));
    assert_eq!(granted(ObjectType::Type), AclMode::only(Privilege::Usage));
    assert_eq!(granted(ObjectType::Schema), AclMode::only(Privilege::Usage));
    assert_eq!(granted(ObjectType::Cluster), AclMode::empty());
    assert_eq!(granted(ObjectType::Secret), AclMode::empty());
}

#[test]
fn sets_list_their_identifiers_once_and_in_order() {
    let ids = vec![
        GlobalId::Explain,
        GlobalId::User(3),
        GlobalId::System(9),
        GlobalId::Transient(0),
        GlobalId::User(1),
        GlobalId::User(3),
    ];
    let set = IdSet::from_ids(&ids);
    assert_eq!(
        set.ids(),
        &vec![
            GlobalId::System(9),
            GlobalId::User(1),
            GlobalId::User(3),
            GlobalId::Transient(0),
            GlobalId::Explain,
        ]
    );
    assert!(set.contains(&GlobalId::User(1)));
    assert!(!set.contains(&GlobalId::User(2)));
    assert!(!set.contains(&GlobalId::System(1)));
    let more = set.insert(GlobalId::User(2));
    assert_eq!(more.ids().len(), 6);
    assert_eq!(more.ids()[2], GlobalId::User(2));
}

#[test]
fn differences_are_in_order() {
    let some = IdSet::from_ids(&vec![
        RoleId::Public,
        RoleId::User(7),
        RoleId::System(2),
        RoleId::User(4),
    ]);
    let held = IdSet::from_ids(&vec![RoleId::User(4)]);
    assert_eq!(
        some.difference(&held),
        vec![RoleId::System(2), RoleId::User(7), RoleId::Public]
    );
    assert_eq!(held.difference(&some), Vec::new());
    assert_eq!(some.copy().ids(), some.ids());
}
