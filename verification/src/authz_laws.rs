//! What holds of authorization setup.

use vstd::prelude::*;
use vstd::std_specs::convert::FromSpec;

use crate::authz::{
    action_class_view, asks_inline, can_register, class_constants, class_equality, class_methods,
    class_name, class_view, database_class_view, first_names, is_oso_init, is_plain,
    is_registration_error, is_reserved, knows_first, lists_names, loaded_source, names_of,
    needs_no_escapes, oso_names, perm_for, polar_loads, quoted, registered_classes, registrable, Action,
    ClassView, OsoInit, OsoInitError, Perm,
};
use crate::text::{join, text_before, texts};

verus! {

// ---
// Actions and permissions
// ---

/// An action becomes the permission that it needs.
pub proof fn law_actions_become_permissions(a: Action)
    ensures
        a is Read || a is ReadPolicy ==> Perm::from_spec(&a) is Read,
        a is Modify || a is ModifyPolicy || a is Delete ==> Perm::from_spec(&a) is Modify,
        a is Query ==> Perm::from_spec(&a) is Query,
        a is ListChildren ==> Perm::from_spec(&a) is ListChildren,
        a is CreateChild ==> Perm::from_spec(&a) is CreateChild,
        Perm::from_spec(&a) == perm_for(a),
{
}

/// The names of the permissions.
pub proof fn law_names_of_permissions(p: Perm)
    ensures
        p is Query ==> p.text() == "query"@,
        p is Read ==> p.text() == "read"@,
        p is Modify ==> p.text() == "modify"@,
        p is ListChildren ==> p.text() == "list_children"@,
        p is CreateChild ==> p.text() == "create_child"@,
{
}

// ---
// Classes
// ---

/// The policy asks an action for its permission, and the database whether an actor has
/// a role on it. Actions alone can be compared.
pub proof fn law_own_classes()
    ensures
        action_class_view().name == "Action"@,
        action_class_view().constants.len() == 0,
        action_class_view().methods == set!["to_perm"@],
        action_class_view().equality,
        database_class_view().name == "Database"@,
        database_class_view().constants.len() == 0,
        database_class_view().methods == set!["has_role"@],
        !database_class_view().equality,
{
}

/// A class stands for its name, its constants, its methods and whether its instances
/// can be compared.
pub proof fn law_what_a_class_stands_for(class: oso::Class)
    ensures
        class_view(class).name == class_name(class),
        class_view(class).constants == class_constants(class),
        class_view(class).methods == class_methods(class),
        class_view(class).equality == class_equality(class),
{
}

/// The classes of a new environment.
pub proof fn law_classes_of_a_new_environment(name: Seq<char>)
    ensures
        oso_names().contains(name) <==> name == "oso::host::Class"@ || name == "Boolean"@ || name
            == "Integer"@ || name == "Float"@ || name == "List"@ || name == "Dictionary"@ || name
            == "String"@ || name == "Option"@,
{
}

/// A class can be registered unless its name is taken, or its name or that of one of
/// its constants is one that Polar keeps: `Actor` or `Resource`. So it cannot be
/// registered twice.
pub proof fn law_which_classes_register(there: Set<Seq<char>>, class: ClassView, i: int)
    ensures
        is_reserved(class.name) <==> class.name == "Actor"@ || class.name == "Resource"@,
        there.contains(class.name) ==> !can_register(there, class),
        class.name == "Actor"@ || class.name == "Resource"@ ==> !can_register(there, class),
        0 <= i < class.constants.len() && (class.constants[i] == "Actor"@ || class.constants[i]
            == "Resource"@) ==> !can_register(there, class),
        !there.contains(class.name) && class.name != "Actor"@ && class.name != "Resource"@
            && class.constants.len() == 0 ==> can_register(there, class),
        !can_register(there.insert(class.name), class),
        can_register(there, class) ==> (forall|other: Set<Seq<char>>|
            other.subset_of(there) ==> #[trigger] can_register(other, class)),
{
    if can_register(there, class) && 0 <= i < class.constants.len() {
        assert(!is_reserved(class.constants[i]));
    }
}

// ---
// Configurations
// ---

/// A source is plain where each character is in ASCII, and an equals sign never follows
/// right after a question mark.
pub proof fn law_plain_sources(source: Seq<char>, c: char)
    ensures
        is_plain(Seq::empty()),
        is_plain(source.push(c)) <==> is_plain(source) && c <= '\x7f' && !(c == '='
            && source.len() > 0 && source.last() == '?'),
{
    let more = source.push(c);
    assert(more[source.len() as int] == c);
    if is_plain(more) {
        assert forall|i: int| 0 <= i < source.len() implies #[trigger] source[i] <= '\x7f' by {
            assert(more[i] == source[i]);
        }
        if asks_inline(source) {
            let i = choose|i: int|
                0 <= i < source.len() - 1 && #[trigger] source[i] == '?' && source[i + 1] == '=';
            assert(more[i] == '?' && more[i + 1] == '=');
        }
        if c == '=' && source.len() > 0 && source.last() == '?' {
            assert(more[source.len() - 1] == '?' && more[source.len() - 1 + 1] == '=');
        }
    }
    if is_plain(source) && c <= '\x7f' && !(c == '=' && source.len() > 0 && source.last() == '?') {
        if asks_inline(more) {
            let i = choose|i: int|
                0 <= i < more.len() - 1 && #[trigger] more[i] == '?' && more[i + 1] == '=';
            if i < source.len() - 1 {
                assert(source[i] == '?' && source[i + 1] == '=');
            }
        }
    }
}

/// The texts of errors name the class that was asked for, in quotes.
pub proof fn law_texts_of_setup_errors(e: OsoInitError, name: Seq<char>)
    ensures
        match e {
            OsoInitError::AlreadyRegistered { name } => e.text()
                == "Oso class was already registered: "@ + quoted(name@),
            OsoInitError::Registering { name, .. } => e.text() == "registering Oso class "@
                + quoted(name@),
            OsoInitError::Loading { .. } => e.text() == "loading Polar (Oso) config"@,
        },
        (forall|i: int|
            0 <= i < name.len() ==> ' ' <= #[trigger] name[i] <= '~' && name[i] != '"' && name[i]
                != '\'' && name[i] != '\\') ==> quoted(name) == seq!['"'] + name + seq!['"'],
{
    if forall|i: int|
        0 <= i < name.len() ==> ' ' <= #[trigger] name[i] <= '~' && name[i] != '"' && name[i]
            != '\'' && name[i] != '\\' {
        assert(needs_no_escapes(name));
    }
}

/// Names are listed each once, by the order of their characters.
pub proof fn law_names_are_listed_in_order(
    list: Seq<Seq<char>>,
    names: Set<Seq<char>>,
    i: int,
    j: int,
    name: Seq<char>,
)
    requires
        lists_names(list, names),
    ensures
        0 <= i < j < list.len() ==> text_before(list[i], list[j]),
        list.contains(name) <==> names.contains(name),
{
    assert(list.to_set().contains(name) <==> list.contains(name));
}

/// An environment that was set up is loaded with all snippets, each on lines of its
/// own. It knows each of the classes under its name as it was given, and lists just
/// their names.
pub proof fn law_what_an_environment_knows(
    r: Result<OsoInit, OsoInitError>,
    classes: Seq<ClassView>,
    snippets: Seq<Seq<char>>,
    k: int,
    name: Seq<char>,
)
    requires
        is_oso_init(r, classes, snippets),
        r is Ok,
        0 <= k < classes.len(),
    ensures
        loaded_source(r->Ok_0.oso) == join(snippets, "\n"@),
        registered_classes(r->Ok_0.oso).contains_key(classes[k].name),
        class_view(registered_classes(r->Ok_0.oso)[classes[k].name]) == classes[k],
        oso_names().contains(name) ==> registered_classes(r->Ok_0.oso).contains_key(name),
        texts(r->Ok_0.class_names@).contains(name) <==> exists|i: int|
            0 <= i < classes.len() && (#[trigger] classes[i]).name == name,
        (forall|i: int| 0 <= i < classes.len() ==> (#[trigger] classes[i]).constants.len() == 0)
            ==> (registered_classes(r->Ok_0.oso).contains_key(name) <==> oso_names().contains(name)
            || texts(r->Ok_0.class_names@).contains(name)),
{
    let n = classes.len() as int;
    let list = texts(r->Ok_0.class_names@);
    let known = registered_classes(r->Ok_0.oso);
    let names = names_of(classes.take(n));
    assert(list.to_set().contains(name) <==> list.contains(name));
    assert(names.to_set().contains(name) <==> names.contains(name));
    if names.contains(name) {
        let i = choose|i: int| 0 <= i < names.len() && names[i] == name;
        assert(classes[i].name == name);
    }
    if exists|i: int| 0 <= i < classes.len() && (#[trigger] classes[i]).name == name {
        let i = choose|i: int| 0 <= i < classes.len() && (#[trigger] classes[i]).name == name;
        assert(names[i] == name);
    }
    assert(names[k] == classes[k].name);
    assert(names.to_set().contains(classes[k].name));
    let all = oso_names().union(first_names(classes, n));
    assert(all.contains(classes[k].name));
    assert(known.dom().contains(classes[k].name));
    if oso_names().contains(name) {
        assert(all.contains(name));
        assert(known.dom().contains(name));
    }
    assert(known.dom().contains(name) <==> known.contains_key(name));
    assert(all.contains(name) <==> oso_names().contains(name) || first_names(classes, n).contains(
        name,
    ));
}

/// The error of a class that could not be registered names that class, and each class
/// before it could be. Where its name is one from before, that is told.
pub proof fn law_the_first_failure_is_told(e: OsoInitError, classes: Seq<ClassView>, n: int, k: int)
    requires
        is_registration_error(e, classes, n),
    ensures
        0 <= n < classes.len(),
        0 <= k < n ==> registrable(classes, k),
        e is AlreadyRegistered <==> exists|i: int|
            0 <= i < n && (#[trigger] classes[i]).name == classes[n].name,
        e is Registering && (forall|i: int|
            0 <= i < n ==> (#[trigger] classes[i]).constants.len() == 0) ==> !registrable(
            classes,
            n,
        ),
        match e {
            OsoInitError::AlreadyRegistered { name } => name@ == classes[n].name,
            OsoInitError::Registering { name, .. } => name@ == classes[n].name,
            OsoInitError::Loading { .. } => false,
        },
{
    let name = classes[n].name;
    let names = names_of(classes.take(n));
    assert(names.to_set().contains(name) <==> names.contains(name));
    if names.contains(name) {
        let i = choose|i: int| 0 <= i < names.len() && names[i] == name;
        assert(classes[i].name == name);
    }
    if exists|i: int| 0 <= i < n && (#[trigger] classes[i]).name == name {
        let i = choose|i: int| 0 <= i < n && (#[trigger] classes[i]).name == name;
        assert(names[i] == name);
    }
}

/// A class is registrable where it can be registered beside those of a new environment
/// and those before it.
pub proof fn law_registrable_classes(classes: Seq<ClassView>, n: int)
    requires
        0 <= n < classes.len(),
        registrable(classes, n),
    ensures
        !oso_names().contains(classes[n].name),
        classes[n].name != "Actor"@,
        classes[n].name != "Resource"@,
        forall|i: int| 0 <= i < n ==> (#[trigger] classes[i]).name != classes[n].name,
{
    let names = names_of(classes.take(n));
    assert forall|i: int| 0 <= i < n implies (#[trigger] classes[i]).name != classes[n].name by {
        assert(names[i] == classes[i].name);
        assert(names.to_set().contains(names[i]));
    }
}

/// An environment is set up only where its configuration loads with the classes that it
/// then knows. It is told that the configuration does not load only where all classes
/// were registered.
pub proof fn law_only_what_loads_is_set_up(
    r: Result<OsoInit, OsoInitError>,
    classes: Seq<ClassView>,
    snippets: Seq<Seq<char>>,
    k: int,
)
    requires
        is_oso_init(r, classes, snippets),
    ensures
        r is Ok ==> exists|env: oso::Oso| #[trigger]
            polar_loads(env, join(snippets, "\n"@)) && registered_classes(env)
                == registered_classes(r->Ok_0.oso),
        r is Err && r->Err_0 is Loading ==> exists|env: oso::Oso|
            !#[trigger] polar_loads(env, join(snippets, "\n"@)) && forall|i: int|
                0 <= i < classes.len() ==> registered_classes(env).contains_key(
                    (#[trigger] classes[i]).name,
                ),
        (r is Ok || r->Err_0 is Loading) && 0 <= k < classes.len() ==> registrable(classes, k),
        r is Err && !(r->Err_0 is Loading) ==> exists|n: int|
            #[trigger] is_registration_error(r->Err_0, classes, n),
{
    if r is Err && r->Err_0 is Loading {
        let n = classes.len() as int;
        let env = choose|env: oso::Oso|
            !#[trigger] polar_loads(env, join(snippets, "\n"@)) && knows_first(env, classes, n);
        let names = names_of(classes.take(n));
        let known = registered_classes(env);
        assert forall|i: int| 0 <= i < classes.len() implies known.contains_key(
            (#[trigger] classes[i]).name,
        ) by {
            assert(names[i] == classes[i].name);
            assert(names.to_set().contains(names[i]));
            let all = oso_names().union(first_names(classes, n));
            assert(all.contains(classes[i].name));
            assert(known.dom().contains(classes[i].name));
        }
    }
}

} // verus!
