//! What messages say.

use crate::acl::ObjectType;
use crate::error::{
    type_word, AdapterError, AdapterErrorView, DescriptionView, ErrorMessageObjectDescription,
    UnauthorizedError, UnauthorizedView,
};
use crate::text::{escaped, in_quotes, joined};
use vstd::prelude::*;

verus! {

/// To join texts is to join some of them and then the others, with the separator between the two.
/// One text joined is that text, and none is the empty text.
pub proof fn law_joined_in_turn(a: Seq<Seq<char>>, b: Seq<Seq<char>>, separator: Seq<char>)
    ensures
        a.len() > 0 && b.len() > 0 ==> joined(a + b, separator) == joined(a, separator) + separator
            + joined(b, separator),
        a.len() == 1 ==> joined(a, separator) == a[0],
        a.len() == 0 ==> joined(a, separator).len() == 0,
    decreases b.len(),
{
    if a.len() > 0 && b.len() > 0 {
        assert((a + b).drop_last() =~= a + b.drop_last());
        assert((a + b).last() == b.last());
        if b.len() == 1 {
            assert(a + b.drop_last() =~= a);
        } else {
            law_joined_in_turn(a, b.drop_last(), separator);
            assert(joined(a + b, separator) =~= joined(a, separator) + separator + joined(
                b,
                separator,
            ));
        }
    }
}

/// To escape a text is to escape its parts one after the other. A double quote gets a backslash
/// before it, and any other character stays as it is.
pub proof fn law_escaped_in_turn(a: Seq<char>, b: Seq<char>)
    ensures
        escaped(a + b) == escaped(a) + escaped(b),
        a.len() == 1 ==> escaped(a) == (if a[0] == '"' {
            seq!['\\', '"']
        } else {
            seq![a[0]]
        }),
        a.len() == 0 ==> escaped(a).len() == 0,
    decreases b.len(),
{
    if a.len() == 1 {
        let none = Seq::<char>::empty();
        assert(a.drop_last() =~= none);
        assert(escaped(none) =~= none);
        assert(a.last() == a[0]);
        assert(escaped(a) =~= if a[0] == '"' {
            seq!['\\', '"']
        } else {
            seq![a[0]]
        });
    }
    if b.len() == 0 {
        assert(a + b =~= a);
        assert(escaped(a) + escaped(b) =~= escaped(a));
    } else {
        law_escaped_in_turn(a, b.drop_last());
        assert((a + b).drop_last() =~= a + b.drop_last());
        assert((a + b).last() == b.last());
        assert(escaped(a + b) =~= escaped(a) + escaped(b));
    }
}

/// A text in quotes is the escaped text between two double quotes.
pub proof fn law_quotes_enclose(text: Seq<char>)
    ensures
        in_quotes(text).len() == escaped(text).len() + 2,
        in_quotes(text)[0] == '"',
        in_quotes(text).last() == '"',
        in_quotes(text).subrange(1, escaped(text).len() as int + 1) == escaped(text),
{
    assert(in_quotes(text).subrange(1, escaped(text).len() as int + 1) =~= escaped(text));
}

/// Who is not allowed an action is told that they are not, and which action it was.
pub proof fn law_told_of_the_action(action: Seq<char>)
    ensures
        (UnauthorizedView::Superuser { action }).message() == "permission denied to "@ + action,
        (UnauthorizedView::MzSystem { action }).message() == "permission denied to "@ + action,
        (UnauthorizedView::MzIntrospection { action }).message() == "permission denied to "@
            + action,
{
}

/// Who must own objects is told of all of them, each by its type and name, in their order.
pub proof fn law_told_of_all_objects(
    objects: Seq<(ObjectType, Seq<char>)>,
    object: (ObjectType, Seq<char>),
)
    ensures
        (UnauthorizedView::Ownership { objects: objects.push(object) }).message() == (
        UnauthorizedView::Ownership { objects }).message() + (if objects.len() > 0 {
            ", "@
        } else {
            seq![]
        }) + type_word(object.0) + " "@ + object.1,
        (UnauthorizedView::Ownership { objects: seq![] }).message() == "must be owner of "@,
{
    let f = |o: (ObjectType, Seq<char>)| type_word(o.0) + " "@ + o.1;
    let all = objects.push(object);
    let before = Seq::new(objects.len(), |i: int| type_word(objects[i].0) + " "@ + objects[i].1);
    let after = Seq::new(all.len(), |i: int| type_word(all[i].0) + " "@ + all[i].1);
    assert(after =~= before.push(f(object)));
    assert(after.drop_last() =~= before);
    assert(after.last() == f(object));
    if objects.len() == 0 {
        assert(after[0] == f(object));
        assert(joined(before, ", "@) =~= Seq::<char>::empty());
    }
    let none = Seq::<(ObjectType, Seq<char>)>::empty();
    assert(Seq::new(none.len(), |i: int| type_word(none[i].0) + " "@ + none[i].1) =~= Seq::<
        Seq<char>,
    >::empty());
    assert((UnauthorizedView::Ownership { objects: none }).message() =~= "must be owner of "@);
    assert((UnauthorizedView::Ownership { objects: all }).message() =~= (
    UnauthorizedView::Ownership { objects }).message() + (if objects.len() > 0 {
        ", "@
    } else {
        seq![]
    }) + type_word(object.0) + " "@ + object.1);
}

/// Who must be a member of roles is told of all of them, each by its name in quotes, in their
/// order.
pub proof fn law_told_of_all_roles(role_names: Seq<Seq<char>>, name: Seq<char>)
    ensures
        (UnauthorizedView::RoleMembership { role_names: role_names.push(name) }).message() == (
        UnauthorizedView::RoleMembership { role_names }).message() + (if role_names.len() > 0 {
            ", "@
        } else {
            seq![]
        }) + in_quotes(name),
        (UnauthorizedView::RoleMembership { role_names: seq![] }).message()
            == "must be a member of "@,
{
    let all = role_names.push(name);
    let before = Seq::new(role_names.len(), |i: int| in_quotes(role_names[i]));
    let after = Seq::new(all.len(), |i: int| in_quotes(all[i]));
    assert(after =~= before.push(in_quotes(name)));
    assert(after.drop_last() =~= before);
    assert(after.last() == in_quotes(name));
    if role_names.len() == 0 {
        assert(after[0] == in_quotes(name));
        assert(joined(before, ", "@) =~= Seq::<char>::empty());
    }
    let none = Seq::<Seq<char>>::empty();
    assert(Seq::new(none.len(), |i: int| in_quotes(none[i])) =~= Seq::<Seq<char>>::empty());
    assert((UnauthorizedView::RoleMembership { role_names: none }).message()
        =~= "must be a member of "@);
    assert((UnauthorizedView::RoleMembership { role_names: all }).message() =~= (
    UnauthorizedView::RoleMembership { role_names }).message() + (if role_names.len() > 0 {
        ", "@
    } else {
        seq![]
    }) + in_quotes(name));
}

/// Who lacks a privilege is told which object it is on, by its type and its name in quotes, or that
/// it is on the system.
pub proof fn law_told_of_the_object(object_type: ObjectType, object_name: Seq<char>)
    ensures
        (UnauthorizedView::Privilege {
            object_description: DescriptionView::Object { object_type, object_name },
        }).message() == "permission denied for "@ + (type_word(object_type) + " "@ + in_quotes(
            object_name,
        )),
        (UnauthorizedView::Privilege { object_description: DescriptionView::System }).message()
            == "permission denied for "@ + "SYSTEM"@,
{
}

/// There is more to say to those who would have to be someone else, and nothing to others.
pub proof fn law_details(error: UnauthorizedView)
    ensures
        error matches UnauthorizedView::Superuser { action } ==> error.details() == Some(
            "You must be a superuser to "@ + action,
        ),
        error is MzSystem ==> error.details() == Some("You must be the 'mz_system' role"@),
        error is MzIntrospection ==> error.details() == Some(
            "The 'mz_introspection' role has very limited privileges"@,
        ),
        error is Ownership || error is RoleMembership || error is Privilege ==> error.details()
            is None,
{
}

/// What an error is taken to say is what it holds.
pub proof fn law_errors_say_what_they_hold(
    error: UnauthorizedError,
    description: ErrorMessageObjectDescription,
    outer: AdapterError,
    i: int,
)
    ensures
        error matches UnauthorizedError::Superuser { action } ==> error@ == (
        UnauthorizedView::Superuser { action: action@ }),
        error matches UnauthorizedError::MzSystem { action } ==> error@ == (
        UnauthorizedView::MzSystem { action: action@ }),
        error matches UnauthorizedError::MzIntrospection { action } ==> error@ == (
        UnauthorizedView::MzIntrospection { action: action@ }),
        error matches UnauthorizedError::Ownership { objects } ==> {
            &&& error@ is Ownership
            &&& error@->Ownership_objects.len() == objects@.len()
            &&& 0 <= i < objects@.len() ==> error@->Ownership_objects[i] == (
                objects@[i].0,
                objects@[i].1@,
            )
        },
        error matches UnauthorizedError::RoleMembership { role_names } ==> {
            &&& error@ is RoleMembership
            &&& error@->RoleMembership_role_names.len() == role_names@.len()
            &&& 0 <= i < role_names@.len() ==> error@->RoleMembership_role_names[i]
                == role_names@[i]@
        },
        error matches UnauthorizedError::Privilege { object_description } ==> error@ == (
        UnauthorizedView::Privilege { object_description: object_description@ }),
        description matches ErrorMessageObjectDescription::Object { object_type, object_name }
            ==> description@ == (DescriptionView::Object {
            object_type,
            object_name: object_name@,
        }),
        description is System ==> description@ == DescriptionView::System,
        outer matches AdapterError::ConcurrentRoleDrop(role) ==> outer@
            == AdapterErrorView::ConcurrentRoleDrop(role),
        outer matches AdapterError::Unauthorized(inner) ==> outer@
            == AdapterErrorView::Unauthorized(inner@),
{
}

} // verus!
