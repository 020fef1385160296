//! Setting up authorization: actions, permissions, and the Oso environment.

use oso::{Class, Oso, OsoError};
use vstd::prelude::*;

use crate::text::{
    in_text_order, is_text_before, join, join_strings, lemma_text_before_asymmetric,
    lemma_text_before_irreflexive, lemma_text_before_total, lemma_text_before_transitive,
    text_before, texts,
};

verus! {

#[verifier::external_type_specification]
#[verifier::external_body]
pub struct ExOso(Oso);

#[verifier::external_type_specification]
#[verifier::external_body]
pub struct ExClass(Class);

#[verifier::external_type_specification]
#[verifier::external_body]
pub struct ExOsoError(OsoError);

// ---
// Actions and permissions
// ---

/// Describes an action being authorized.
///
/// There's currently just one enum of Actions. We expect most objects to
/// support mostly the same set of actions.
#[derive(Clone, Copy, Debug, Eq, PartialEq, Structural)]
pub enum Action {
    /// only used for `Database`
    Query,
    Read,
    ListChildren,
    ReadPolicy,
    Modify,
    ModifyPolicy,
    CreateChild,
    Delete,
}

/// A permission used in the Polar configuration.
///
/// An authorization request starts by asking whether an actor can take some
/// _action_ on a resource. Most of the policy is written in terms of
/// traditional RBAC-style _permissions_. This type is used to help translate
/// from [`Action`] to permission.
///
/// Note that Polar appears to require that all permissions be strings. So in
/// practice, the [`Action`] is converted to a [`Perm`] only for long enough to
/// convert that to a string. Still, having a separate type here ensures that
/// not _any_ old string can be used as a permission.
#[derive(Clone, Copy, Debug, Eq, PartialEq, Structural)]
pub enum Perm {
    /// Only for `Database`
    Query,
    Read,
    Modify,
    ListChildren,
    CreateChild,
}

/// The permission that an action needs.
pub open spec fn perm_for(a: Action) -> Perm {
    match a {
        Action::Query => Perm::Query,
        Action::Read => Perm::Read,
        Action::ReadPolicy => Perm::Read,
        Action::Modify => Perm::Modify,
        Action::ModifyPolicy => Perm::Modify,
        Action::Delete => Perm::Modify,
        Action::ListChildren => Perm::ListChildren,
        Action::CreateChild => Perm::CreateChild,
    }
}

impl From<&Action> for Perm {
    fn from(a: &Action) -> (r: Self) {
        match a {
            Action::Query => Perm::Query,
            Action::Read => Perm::Read,
            Action::ReadPolicy => Perm::Read,
            Action::Modify => Perm::Modify,
            Action::ModifyPolicy => Perm::Modify,
            Action::Delete => Perm::Modify,
            Action::ListChildren => Perm::ListChildren,
            Action::CreateChild => Perm::CreateChild,
        }
    }
}

impl vstd::std_specs::convert::FromSpecImpl<&Action> for Perm {
    open spec fn obeys_from_spec() -> bool {
        true
    }

    open spec fn from_spec(a: &Action) -> Self {
        perm_for(*a)
    }
}

impl Perm {
    /// The name of the permission in the Polar configuration.
    pub open spec fn text(self) -> Seq<char> {
        match self {
            Perm::Query => "query"@,
            Perm::Read => "read"@,
            Perm::Modify => "modify"@,
            Perm::ListChildren => "list_children"@,
            Perm::CreateChild => "create_child"@,
        }
    }

    /// The name of the permission in the Polar configuration.
    ///
    /// This implementation MUST be kept in sync with the Polar configuration,
    /// which uses literal strings for permissions.
    pub fn as_str(&self) -> (r: &'static str)
        ensures
            r@ == self.text(),
    {
        match self {
            Perm::Query => "query",
            Perm::Read => "read",
            Perm::Modify => "modify",
            Perm::ListChildren => "list_children",
            Perm::CreateChild => "create_child",
        }
    }
}

/// No two permissions have the same name in the Polar configuration.
pub proof fn law_perm_names_differ(a: Perm, b: Perm)
    requires
        a.text() == b.text(),
    ensures
        a == b,
{
    reveal_strlit("query");
    reveal_strlit("read");
    reveal_strlit("modify");
    reveal_strlit("list_children");
    reveal_strlit("create_child");
    assert("query"@.len() == 5 && "read"@.len() == 4 && "modify"@.len() == 6);
    assert("list_children"@.len() == 13 && "create_child"@.len() == 12);
    assert(a.text().len() == b.text().len());
}

impl Action {
    /// The name of the permission that the action needs.
    pub fn to_perm(&self) -> (r: String)
        ensures
            r@ == perm_for(*self).text(),
            self is Read || self is ReadPolicy ==> r@ == "read"@,
            self is Modify || self is ModifyPolicy || self is Delete ==> r@ == "modify"@,
            self is Query ==> r@ == "query"@,
            self is ListChildren ==> r@ == "list_children"@,
            self is CreateChild ==> r@ == "create_child"@,
    {
        Perm::from(self).as_str().to_owned()
    }

    /// The Polar class of actions.
    pub fn get_polar_class() -> (r: Class)
        ensures
            class_view(r) == action_class_view(),
    {
        action_class("Action", "to_perm")
    }
}

/// Represents the database itself to Polar.
///
/// This exists so that we can have roles with no access to the database at all.
#[derive(Clone, Copy, Debug, Eq, PartialEq, Structural)]
pub struct Database;

/// Singleton representing the `Database` itself for authz purposes.
pub const DATABASE: Database = Database;

impl Database {
    /// Whether an actor has a role on the database beyond those of the policy.
    ///
    /// There is an explicit rule in the Oso policy granting the appropriate
    /// roles on "Database" to the appropriate actors. We don't need to grant
    /// anything extra here.
    pub fn has_role(&self) -> (r: bool)
        ensures
            !r,
    {
        false
    }

    /// The Polar class of the database.
    pub fn get_polar_class() -> (r: Class)
        ensures
            class_view(r) == database_class_view(),
    {
        database_class("Database", "has_role")
    }

    /// The error that is returned where access to the database is denied.
    pub fn on_unauthorized<E>(&self, error: E) -> (r: E)
        ensures
            r == error,
    {
        error
    }
}

// ---
// Oso
// ---

/// The name of an `oso::Class`.
pub uninterp spec fn class_name(class: Class) -> Seq<char>;

/// The names of the constants that an `oso::Class` adds where it is registered.
pub uninterp spec fn class_constants(class: Class) -> Seq<Seq<char>>;

/// The names of the methods that instances of an `oso::Class` have.
pub uninterp spec fn class_methods(class: Class) -> Set<Seq<char>>;

/// Whether instances of an `oso::Class` can be compared with each other.
pub uninterp spec fn class_equality(class: Class) -> bool;

/// The classes that are registered with an `oso::Oso`, by their names.
pub uninterp spec fn registered_classes(oso: Oso) -> Map<Seq<char>, Class>;

/// The Polar source that an `oso::Oso` was loaded with last.
pub uninterp spec fn loaded_source(oso: Oso) -> Seq<char>;

/// Whether an `oso::Oso` loads a Polar source.
pub uninterp spec fn polar_loads(oso: Oso, source: Seq<char>) -> bool;

/// What an `oso::Class` stands for: its name, the names of the constants that it
/// adds and of the methods that its instances have, and whether these can be
/// compared with each other.
#[verifier::ext_equal]
pub struct ClassView {
    pub name: Seq<char>,
    pub constants: Seq<Seq<char>>,
    pub methods: Set<Seq<char>>,
    pub equality: bool,
}

/// What a class stands for.
pub open spec fn class_view(class: Class) -> ClassView {
    ClassView {
        name: class_name(class),
        constants: class_constants(class),
        methods: class_methods(class),
        equality: class_equality(class),
    }
}

/// The class of actions: the policy asks an action for its permission.
pub open spec fn action_class_view() -> ClassView {
    ClassView {
        name: "Action"@,
        constants: Seq::empty(),
        methods: set!["to_perm"@],
        equality: true,
    }
}

/// The class of the database: the policy asks whether an actor has a role on it.
pub open spec fn database_class_view() -> ClassView {
    ClassView {
        name: "Database"@,
        constants: Seq::empty(),
        methods: set!["has_role"@],
        equality: false,
    }
}

/// The names of the classes that are registered with a new environment.
pub open spec fn oso_names() -> Set<Seq<char>> {
    set![
        "oso::host::Class"@,
        "Boolean"@,
        "Integer"@,
        "Float"@,
        "List"@,
        "Dictionary"@,
        "String"@,
        "Option"@,
    ]
}

/// Whether Polar keeps a name for a specializer of its own.
pub open spec fn is_reserved(name: Seq<char>) -> bool {
    name == "Actor"@ || name == "Resource"@
}

/// Whether a class can be registered beside those of the given names.
pub open spec fn can_register(there: Set<Seq<char>>, class: ClassView) -> bool {
    &&& !there.contains(class.name)
    &&& !is_reserved(class.name)
    &&& forall|i: int|
        0 <= i < class.constants.len() ==> !is_reserved(#[trigger] class.constants[i])
}

/// Builds the class of actions.
///
/// Calls `oso::Class::builder`, `ClassBuilder::name`, which sets the name of
/// the class, `ClassBuilder::with_equality_check`, which lets instances be
/// compared, `ClassBuilder::add_method`, which adds [`Action::to_perm`] under the
/// given name, and `ClassBuilder::build`. None of them adds a constant.
#[verifier::external_body]
fn action_class(name: &str, method: &'static str) -> (r: Class)
    ensures
        class_name(r) == name@,
        class_constants(r).len() == 0,
        class_methods(r) == set![method@],
        class_equality(r),
{
    Class::builder()
        .name(name)
        .with_equality_check()
        .add_method(method, |a: &Action| a.to_perm())
        .build()
}

/// Builds the class of the database.
///
/// Calls `oso::Class::builder`, `ClassBuilder::name`, which sets the name of
/// the class, `ClassBuilder::add_method`, which adds [`Database::has_role`] under
/// the given name, and `ClassBuilder::build`. None of them adds a constant, or
/// lets instances be compared.
#[verifier::external_body]
fn database_class(name: &str, method: &'static str) -> (r: Class)
    ensures
        class_name(r) == name@,
        class_constants(r).len() == 0,
        class_methods(r) == set![method@],
        !class_equality(r),
{
    Class::builder()
        .name(name)
        .add_method(method, |d: &Database, _actor: oso::PolarValue, _role: String| d.has_role())
        .build()
}

/// The name of a class.
///
/// Reads the field `name` of `oso::Class`.
#[verifier::external_body]
fn name_of(class: &Class) -> (r: String)
    ensures
        r@ == class_name(*class),
{
    class.name.clone()
}

/// Makes an Oso environment.
///
/// Calls `oso::Oso::new`, which registers a class of classes, and those of the
/// types that are built into Polar.
#[verifier::external_body]
fn oso_new() -> (r: Oso)
    ensures
        registered_classes(r).dom() == oso_names(),
{
    Oso::new()
}

/// Registers a class.
///
/// Calls `oso::Oso::register_class`. It succeeds just where no class of that name
/// is registered, and Polar keeps neither the name nor that of a constant that
/// the class adds for a specializer of its own. Then the class is registered, and
/// those that were before still are. A constant may bring in the class of its own
/// type; a class without constants brings in no other.
#[verifier::external_body]
fn oso_register_class(oso: &mut Oso, class: Class) -> (r: Result<(), OsoError>)
    ensures
        r is Ok == can_register(registered_classes(*old(oso)).dom(), class_view(class)),
        r is Ok ==> registered_classes(*old(oso)).insert(class_name(class), class).submap_of(
            registered_classes(*final(oso)),
        ),
        (r is Ok && class_constants(class).len() == 0) ==> registered_classes(*final(oso))
            == registered_classes(*old(oso)).insert(class_name(class), class),
{
    oso.register_class(class)
}

/// Whether a Polar source asks a query of its own, which is run where the source
/// is loaded: such a query starts with a question mark and an equals sign.
pub open spec fn asks_inline(source: Seq<char>) -> bool {
    exists|i: int|
        0 <= i < source.len() - 1 && #[trigger] source[i] == '?' && source[i + 1] == '='
}

/// Whether a Polar source is in ASCII, and asks no query of its own.
pub open spec fn is_plain(source: Seq<char>) -> bool {
    &&& forall|i: int| 0 <= i < source.len() ==> #[trigger] source[i] <= '\x7f'
    &&& !asks_inline(source)
}

/// Whether each of the parts of a configuration is in ASCII, and asks no query of
/// its own.
pub open spec fn all_plain(parts: Seq<Seq<char>>) -> bool {
    forall|i: int| 0 <= i < parts.len() ==> is_plain(#[trigger] parts[i])
}

/// Loads a Polar source that is in ASCII, and asks no query of its own. To run a
/// query may panic, and so may telling of what is wrong with a source in which
/// the places of bytes are not those of characters.
///
/// Calls `oso::Oso::load_str`. Whether it succeeds depends on the environment and
/// the source alone. Where it does, the environment was loaded with that source
/// last, and the same classes are registered as before.
#[verifier::external_body]
fn oso_load_str(oso: &mut Oso, source: &str) -> (r: Result<(), OsoError>)
    requires
        is_plain(source@),
    ensures
        r is Ok == polar_loads(*old(oso), source@),
        r is Ok ==> loaded_source(*final(oso)) == source@,
        r is Ok ==> registered_classes(*final(oso)) == registered_classes(*old(oso)),
{
    oso.load_str(source)
}

/// Whether a Polar source is in ASCII, and asks no query of its own.
pub fn is_plain_source(source: &str) -> (r: bool)
    ensures
        r == is_plain(source@),
{
    let mut after_mark = false;
    for c in it: source.chars()
        invariant
            it.seq() == source@,
            is_plain(source@.take(it.index())),
            after_mark <==> it.index() > 0 && source@[it.index() - 1] == '?',
    {
        let ghost n = it.index();
        assert(c == source@[n]);
        if c > '\x7f' {
            return false;
        }
        if after_mark && c == '=' {
            assert(source@[n - 1] == '?' && source@[n - 1 + 1] == '=');
            return false;
        }
        proof {
            let (t, s) = (source@.take(n), source@.take(n + 1));
            assert forall|i: int| 0 <= i < s.len() implies #[trigger] s[i] <= '\x7f' by {
                if i < n {
                    assert(t[i] == s[i]);
                }
            }
            assert forall|i: int| 0 <= i < s.len() - 1 implies !(#[trigger] s[i] == '?' && s[i + 1]
                == '=') by {
                assert(s[i] == source@[i] && s[i + 1] == source@[i + 1]);
                if i < n - 1 {
                    assert(t[i] == source@[i] && t[i + 1] == source@[i + 1]);
                }
            }
        }
        after_mark = c == '?';
    }
    assert(source@.take(source@.len() as int) =~= source@);
    true
}

/// Joined by line breaks, plain parts make a plain source.
proof fn lemma_join_is_plain(parts: Seq<Seq<char>>)
    requires
        all_plain(parts),
    ensures
        is_plain(join(parts, "\n"@)),
    decreases parts.len(),
{
    reveal_strlit("\n");
    if parts.len() > 1 {
        let rest = parts.drop_last();
        assert forall|i: int| 0 <= i < rest.len() implies is_plain(#[trigger] rest[i]) by {
            assert(rest[i] == parts[i]);
        }
        lemma_join_is_plain(rest);
        let first = join(rest, "\n"@);
        let last = parts.last();
        assert(is_plain(parts[parts.len() - 1]));
        let s = join(parts, "\n"@);
        assert(s == first + "\n"@ + last);
        assert forall|i: int| 0 <= i < s.len() implies #[trigger] s[i] <= '\x7f' by {
            if i < first.len() {
                assert(s[i] == first[i]);
            } else if i > first.len() {
                assert(s[i] == last[i - first.len() - 1]);
            } else {
                assert(s[i] == '\n');
            }
        }
        assert forall|i: int| 0 <= i < s.len() - 1 implies !(#[trigger] s[i] == '?' && s[i + 1]
            == '=') by {
            if i + 1 < first.len() {
                assert(s[i] == first[i] && s[i + 1] == first[i + 1]);
            } else if i > first.len() {
                let k = i - first.len() - 1;
                assert(s[i] == last[k] && s[i + 1] == last[k + 1]);
            } else if i == first.len() {
                assert(s[i] == '\n');
            } else {
                assert(s[i + 1] == '\n');
            }
        }
    } else if parts.len() == 1 {
        assert(is_plain(parts[0]));
    }
}

/// Whether a string holds only characters that ASCII prints, and neither quotes
/// nor backslashes.
pub open spec fn needs_no_escapes(s: Seq<char>) -> bool {
    forall|i: int|
        0 <= i < s.len() ==> ' ' <= #[trigger] s[i] <= '~' && s[i] != '"' && s[i] != '\'' && s[i]
            != '\\'
}

/// How `std` shows a string that needs escapes for debugging.
pub uninterp spec fn debug_text(s: Seq<char>) -> Seq<char>;

/// How a string is shown for debugging: in quotes, with escapes where it needs
/// them.
pub open spec fn quoted(s: Seq<char>) -> Seq<char> {
    if needs_no_escapes(s) {
        seq!['"'] + s + seq!['"']
    } else {
        debug_text(s)
    }
}

/// Shows a string for debugging.
///
/// Calls the `Debug` of `str`; the text depends on the string alone. Where each
/// character is one that ASCII prints, and none of them is a quote or a backslash,
/// it is the string in quotes.
#[verifier::external_body]
fn debug_string(s: &str) -> (r: String)
    ensures
        needs_no_escapes(s@) ==> r@ == seq!['"'] + s@ + seq!['"'],
        !needs_no_escapes(s@) ==> r@ == debug_text(s@),
{
    format!("{:?}", s)
}

/// An error in setting up the Oso environment.
pub enum OsoInitError {
    /// A class of that name was registered before.
    AlreadyRegistered { name: String },
    /// Oso did not register the class.
    Registering { name: String, source: OsoError },
    /// Oso did not load the configuration.
    Loading { source: OsoError },
}

impl OsoInitError {
    /// The text of the error.
    pub open spec fn text(self) -> Seq<char> {
        match self {
            OsoInitError::AlreadyRegistered { name } => {
                "Oso class was already registered: "@ + quoted(name@)
            },
            OsoInitError::Registering { name, .. } => "registering Oso class "@ + quoted(name@),
            OsoInitError::Loading { .. } => "loading Polar (Oso) config"@,
        }
    }

    /// The text of the error.
    pub fn to_text(&self) -> (r: String)
        ensures
            r@ == self.text(),
    {
        match self {
            OsoInitError::AlreadyRegistered { name } => {
                "Oso class was already registered: ".to_owned().concat(
                    debug_string(name.as_str()).as_str(),
                )
            },
            OsoInitError::Registering { name, .. } => {
                "registering Oso class ".to_owned().concat(debug_string(name.as_str()).as_str())
            },
            OsoInitError::Loading { .. } => "loading Polar (Oso) config".to_owned(),
        }
    }
}

/// Used to configure Polar resources.
pub struct Init {
    /// snippet of Polar describing a resource
    pub polar_snippet: &'static str,
    /// description of Rust type implementing the Polar resource
    pub polar_class: Class,
}

/// Represents an initialized Oso environment.
pub struct OsoInit {
    pub oso: Oso,
    /// the names of the registered classes, each once, in the order of characters
    pub class_names: Vec<String>,
}

/// Manages initialization of Oso environment, including Polar snippets and
/// Polar classes.
pub struct OsoInitBuilder {
    oso: Oso,
    class_names: Vec<String>,
    snippets: Vec<String>,
}

/// What an [`OsoInitBuilder`] stands for: the environment, the names of the classes
/// that were registered with the builder, and the snippets of the configuration.
#[verifier::ext_equal]
pub struct OsoInitView {
    pub oso: Oso,
    pub class_names: Set<Seq<char>>,
    pub snippets: Seq<Seq<char>>,
}

impl OsoInitView {
    /// The classes that the environment knows, by their names.
    pub open spec fn registered(self) -> Map<Seq<char>, Class> {
        registered_classes(self.oso)
    }
}

impl View for OsoInitBuilder {
    type V = OsoInitView;

    closed spec fn view(&self) -> OsoInitView {
        OsoInitView {
            oso: self.oso,
            class_names: texts(self.class_names@).to_set(),
            snippets: texts(self.snippets@),
        }
    }
}

/// Whether a list holds each name of a set once, in the order of characters.
pub open spec fn lists_names(list: Seq<Seq<char>>, names: Set<Seq<char>>) -> bool {
    &&& in_text_order(list)
    &&& list.to_set() == names
}

/// What comes of asking Oso to register a class.
pub fn registered(name: String, result: Result<(), OsoError>) -> (r: Result<(), OsoInitError>)
    ensures
        match result {
            Ok(_) => r is Ok,
            Err(source) => r == Err::<(), OsoInitError>(OsoInitError::Registering { name, source }),
        },
{
    match result {
        Ok(_) => Ok(()),
        Err(source) => Err(OsoInitError::Registering { name, source }),
    }
}

/// What comes of asking Oso to load the configuration.
pub fn loaded(oso: Oso, class_names: Vec<String>, result: Result<(), OsoError>) -> (r: Result<
    OsoInit,
    OsoInitError,
>)
    ensures
        match result {
            Ok(_) => r == Ok::<OsoInit, OsoInitError>(OsoInit { oso, class_names }),
            Err(source) => r == Err::<OsoInit, OsoInitError>(OsoInitError::Loading { source }),
        },
{
    match result {
        Ok(_) => Ok(OsoInit { oso, class_names }),
        Err(source) => Err(OsoInitError::Loading { source }),
    }
}

/// How many of the names come before a name.
fn place_of(names: &Vec<String>, name: &String) -> (r: usize)
    requires
        in_text_order(texts(names@)),
    ensures
        r <= names.len(),
        forall|k: int| 0 <= k < r ==> text_before(#[trigger] texts(names@)[k], name@),
        forall|k: int|
            r <= k < names.len() ==> !text_before(#[trigger] texts(names@)[k], name@),
{
    let mut i: usize = 0;
    while i < names.len() && is_text_before(names[i].as_str(), name.as_str())
        invariant
            i <= names.len(),
            forall|k: int| 0 <= k < i ==> text_before(#[trigger] texts(names@)[k], name@),
        decreases names.len() - i,
    {
        assert(texts(names@)[i as int] == names@[i as int]@);
        i = i + 1;
    }
    proof {
        let list = texts(names@);
        assert forall|k: int| i <= k < names.len() implies !text_before(
            #[trigger] list[k],
            name@,
        ) by {
            assert(list[i as int] == names@[i as int]@);
            if k > i && text_before(list[k], name@) {
                lemma_text_before_transitive(list[i as int], list[k], name@);
            }
        }
    }
    i
}

/// Puts a name in its place, unless it is there. Returns whether it was new.
fn insert_name(names: &mut Vec<String>, name: String) -> (r: bool)
    requires
        in_text_order(texts(old(names)@)),
    ensures
        in_text_order(texts(final(names)@)),
        r == !texts(old(names)@).contains(name@),
        texts(final(names)@).to_set() == texts(old(names)@).to_set().insert(name@),
{
    let ghost before = texts(names@);
    let i: usize = place_of(names, &name);
    proof {
        lemma_text_before_irreflexive(name@);
    }
    if i < names.len() && names[i] == name {
        proof {
            assert(before[i as int] == name@);
            assert(before.to_set() =~= before.to_set().insert(name@));
        }
        return false;
    }
    let ghost name_text = name@;
    names.insert(i, name);
    proof {
        let after = texts(names@);
        assert(after =~= before.insert(i as int, name_text));
        assert forall|k: int| i <= k < before.len() implies text_before(
            name_text,
            #[trigger] before[k],
        ) by {
            if before[k] == name_text {
                if k > i {
                    assert(text_before(before[i as int], before[k]));
                }
            } else {
                lemma_text_before_total(name_text, before[k]);
            }
        }
        if before.contains(name_text) {
            let k = choose|k: int| 0 <= k < before.len() && before[k] == name_text;
            assert(text_before(before[k], name_text));
        }
        assert forall|a: int, b: int|
            #![trigger after[a], after[b]]
            0 <= a < b < after.len() implies text_before(after[a], after[b]) by {
            if a < i {
                assert(after[a] == before[a]);
            } else if a > i {
                assert(after[a] == before[a - 1]);
            }
            if b < i {
                assert(after[b] == before[b]);
            } else if b > i {
                assert(after[b] == before[b - 1]);
            }
        }
        assert forall|n: Seq<char>| #[trigger] after.to_set().contains(n) == before.to_set().insert(
            name_text,
        ).contains(n) by {
            if after.to_set().contains(n) {
                let k = choose|k: int| 0 <= k < after.len() && after[k] == n;
                if k < i {
                    assert(before[k] == n);
                } else if k > i {
                    assert(before[k - 1] == n);
                }
            }
            if before.to_set().insert(name_text).contains(n) {
                if n == name_text {
                    assert(after[i as int] == n);
                } else {
                    let k = choose|k: int| 0 <= k < before.len() && before[k] == n;
                    assert(after[if k < i { k } else { k + 1 }] == n);
                }
            }
        }
        assert(after.to_set() =~= before.to_set().insert(name_text));
    }
    true
}

impl OsoInitBuilder {
    #[verifier::type_invariant]
    spec fn consistent(self) -> bool {
        &&& in_text_order(texts(self.class_names@))
        &&& texts(self.class_names@).to_set().subset_of(registered_classes(self.oso).dom())
    }

    /// A builder without classes, whose configuration is the given base.
    pub fn new(base: String) -> (r: OsoInitBuilder)
        ensures
            r@.registered().dom() == oso_names(),
            r@.class_names == Set::<Seq<char>>::empty(),
            r@.snippets == seq![base@],
    {
        let class_names: Vec<String> = Vec::new();
        assert(texts(class_names@).to_set() =~= Set::<Seq<char>>::empty());
        let r = OsoInitBuilder { oso: oso_new(), class_names, snippets: vec![base] };
        assert(r@.snippets =~= seq![base@]);
        r
    }

    /// Registers a class that either has no associated Polar snippet or whose
    /// snippet is part of the base file.
    pub fn register_class(self, c: Class) -> (r: Result<Self, OsoInitError>)
        ensures
            r is Ok <==> can_register(self@.registered().dom(), class_view(c)),
            match r {
                Ok(b) => {
                    &&& !self@.class_names.contains(class_name(c))
                    &&& b@.class_names == self@.class_names.insert(class_name(c))
                    &&& b@.snippets == self@.snippets
                    &&& self@.registered().insert(class_name(c), c).submap_of(b@.registered())
                    &&& class_constants(c).len() == 0 ==> b@.registered()
                        == self@.registered().insert(class_name(c), c)
                },
                Err(OsoInitError::AlreadyRegistered { name }) => {
                    self@.class_names.contains(class_name(c)) && name@ == class_name(c)
                },
                Err(OsoInitError::Registering { name, .. }) => {
                    !self@.class_names.contains(class_name(c)) && name@ == class_name(c)
                },
                Err(OsoInitError::Loading { .. }) => false,
            },
    {
        proof {
            use_type_invariant(&self);
        }
        let name = name_of(&c);
        let OsoInitBuilder { mut oso, mut class_names, snippets } = self;
        let ghost listed = texts(class_names@);
        let new_element = insert_name(&mut class_names, name.clone());
        assert(listed.to_set().contains(name@) == listed.contains(name@));
        if !new_element {
            assert(registered_classes(oso).dom().contains(name@));
            return Err(OsoInitError::AlreadyRegistered { name });
        }
        let ghost with_class = registered_classes(oso).insert(name@, c);
        let result = oso_register_class(&mut oso, c);
        proof {
            if result is Ok {
                assert forall|n: Seq<char>| #[trigger]
                    texts(class_names@).to_set().contains(n) implies registered_classes(
                    oso,
                ).dom().contains(n) by {
                    assert(with_class.dom().contains(n));
                }
            }
        }
        match registered(name, result) {
            Ok(_) => Ok(OsoInitBuilder { oso, class_names, snippets }),
            Err(e) => Err(e),
        }
    }

    /// Registers a class with associated Polar snippet.
    pub fn register_class_with_snippet(self, init: Init) -> (r: Result<Self, OsoInitError>)
        ensures
            r is Ok <==> can_register(self@.registered().dom(), class_view(init.polar_class)),
            match r {
                Ok(b) => {
                    let name = class_name(init.polar_class);
                    &&& !self@.class_names.contains(name)
                    &&& b@.class_names == self@.class_names.insert(name)
                    &&& b@.snippets == self@.snippets.push(init.polar_snippet@)
                    &&& self@.registered().insert(name, init.polar_class).submap_of(
                        b@.registered(),
                    )
                    &&& class_constants(init.polar_class).len() == 0 ==> b@.registered()
                        == self@.registered().insert(name, init.polar_class)
                },
                Err(OsoInitError::AlreadyRegistered { name }) => {
                    self@.class_names.contains(class_name(init.polar_class)) && name@
                        == class_name(init.polar_class)
                },
                Err(OsoInitError::Registering { name, .. }) => {
                    !self@.class_names.contains(class_name(init.polar_class)) && name@
                        == class_name(init.polar_class)
                },
                Err(OsoInitError::Loading { .. }) => false,
            },
    {
        proof {
            use_type_invariant(&self);
        }
        let OsoInitBuilder { oso, class_names, mut snippets } = self;
        snippets.push(init.polar_snippet.to_owned());
        let builder = OsoInitBuilder { oso, class_names, snippets };
        assert(builder@.snippets =~= self@.snippets.push(init.polar_snippet@));
        builder.register_class(init.polar_class)
    }

    /// The configuration: all snippets, each on lines of its own.
    pub fn polar_config(&self) -> (r: String)
        ensures
            r@ == join(self@.snippets, "\n"@),
    {
        join_strings(&self.snippets, "\n")
    }

    /// Loads the configuration, which must be plain.
    pub fn build(self) -> (r: Result<OsoInit, OsoInitError>)
        requires
            all_plain(self@.snippets),
        ensures
            r is Ok <==> polar_loads(self@.oso, join(self@.snippets, "\n"@)),
            match r {
                Ok(init) => {
                    &&& lists_names(texts(init.class_names@), self@.class_names)
                    &&& loaded_source(init.oso) == join(self@.snippets, "\n"@)
                    &&& registered_classes(init.oso) == self@.registered()
                },
                Err(e) => e is Loading,
            },
    {
        proof {
            use_type_invariant(&self);
            lemma_join_is_plain(self@.snippets);
        }
        let polar_config = self.polar_config();
        let OsoInitBuilder { mut oso, class_names, snippets: _ } = self;
        let result = oso_load_str(&mut oso, polar_config.as_str());
        loaded(oso, class_names, result)
    }
}

/// What counts of classes where they are registered.
pub open spec fn class_views(classes: Seq<Class>) -> Seq<ClassView> {
    classes.map_values(|c: Class| class_view(c))
}

/// What counts of the classes of resources.
pub open spec fn init_views(inits: Seq<Init>) -> Seq<ClassView> {
    inits.map_values(|i: Init| class_view(i.polar_class))
}

/// The snippets of resources.
pub open spec fn snippets_of(inits: Seq<Init>) -> Seq<Seq<char>> {
    inits.map_values(|i: Init| i.polar_snippet@)
}

/// The names of classes.
pub open spec fn names_of(classes: Seq<ClassView>) -> Seq<Seq<char>> {
    classes.map_values(|c: ClassView| c.name)
}

/// The names of the first of the classes.
pub open spec fn first_names(classes: Seq<ClassView>, n: int) -> Set<Seq<char>> {
    names_of(classes.take(n)).to_set()
}

/// Whether a class can be registered with a new environment after those before
/// it.
pub open spec fn registrable(classes: Seq<ClassView>, n: int) -> bool {
    can_register(oso_names().union(first_names(classes, n)), classes[n])
}

/// Whether none of the first of the classes adds constants.
pub open spec fn first_are_plain(classes: Seq<ClassView>, n: int) -> bool {
    forall|i: int| 0 <= i < n ==> (#[trigger] classes[i]).constants.len() == 0
}

/// Whether an error is that of a class that could not be registered after those
/// before it: its name is that of one before it, or Oso did not register it. That
/// is one that is not registrable, where none before it adds constants.
pub open spec fn is_registration_error(e: OsoInitError, classes: Seq<ClassView>, n: int) -> bool {
    &&& 0 <= n < classes.len()
    &&& forall|k: int| 0 <= k < n ==> registrable(classes, k)
    &&& match e {
        OsoInitError::AlreadyRegistered { name } => {
            name@ == classes[n].name && first_names(classes, n).contains(name@)
        },
        OsoInitError::Registering { name, .. } => {
            &&& name@ == classes[n].name
            &&& !first_names(classes, n).contains(name@)
            &&& first_are_plain(classes, n) ==> !registrable(classes, n)
        },
        OsoInitError::Loading { .. } => false,
    }
}

/// Whether an environment knows the first of the classes beside those that a new
/// one has, each under its name. It knows no others, where none of these adds
/// constants.
pub open spec fn knows_first(oso: Oso, classes: Seq<ClassView>, n: int) -> bool {
    let known = registered_classes(oso);
    let names = oso_names().union(first_names(classes, n));
    &&& names.subset_of(known.dom())
    &&& forall|k: int| 0 <= k < n ==> class_view(known[(#[trigger] classes[k]).name]) == classes[k]
    &&& first_are_plain(classes, n) ==> known.dom() == names
}

/// What comes of setting up an environment with these classes, and a
/// configuration of these snippets.
pub open spec fn is_oso_init(
    r: Result<OsoInit, OsoInitError>,
    classes: Seq<ClassView>,
    snippets: Seq<Seq<char>>,
) -> bool {
    let n = classes.len() as int;
    let source = join(snippets, "\n"@);
    match r {
        Ok(init) => {
            &&& forall|k: int| 0 <= k < n ==> registrable(classes, k)
            &&& lists_names(texts(init.class_names@), first_names(classes, n))
            &&& loaded_source(init.oso) == source
            &&& knows_first(init.oso, classes, n)
            &&& exists|oso: Oso| #[trigger]
                polar_loads(oso, source) && registered_classes(oso) == registered_classes(init.oso)
        },
        Err(OsoInitError::Loading { .. }) => {
            &&& forall|k: int| 0 <= k < n ==> registrable(classes, k)
            &&& exists|oso: Oso| !#[trigger] polar_loads(oso, source) && knows_first(oso, classes, n)
        },
        Err(e) => exists|k: int| is_registration_error(e, classes, k),
    }
}

/// Whether a builder has the first of the classes.
spec fn has_first(b: OsoInitView, classes: Seq<ClassView>, n: int) -> bool {
    &&& forall|k: int| 0 <= k < n ==> registrable(classes, k)
    &&& b.class_names == first_names(classes, n)
    &&& knows_first(b.oso, classes, n)
}

proof fn lemma_first_names(classes: Seq<ClassView>, n: int)
    requires
        0 <= n < classes.len(),
    ensures
        first_names(classes, n + 1) == first_names(classes, n).insert(classes[n].name),
{
    let (a, b) = (
        names_of(classes.take(n)),
        names_of(classes.take(n + 1)),
    );
    assert(b =~= a.push(classes[n].name));
    assert forall|x: Seq<char>| #[trigger] b.to_set().contains(x) == a.to_set().insert(
        classes[n].name,
    ).contains(x) by {
        if b.to_set().contains(x) {
            let i = choose|i: int| 0 <= i < b.len() && b[i] == x;
            if i < n {
                assert(a[i] == x);
            }
        }
        if a.to_set().insert(classes[n].name).contains(x) {
            if x == classes[n].name {
                assert(b[n] == x);
            } else {
                let i = choose|i: int| 0 <= i < a.len() && a[i] == x;
                assert(b[i] == x);
            }
        }
    }
    assert(b.to_set() =~= a.to_set().insert(classes[n].name));
}

/// A builder that has the first of the classes has one more once that is
/// registered.
proof fn lemma_one_more(
    before: OsoInitView,
    after: OsoInitView,
    classes: Seq<ClassView>,
    n: int,
    class: Class,
)
    requires
        0 <= n < classes.len(),
        classes[n] == class_view(class),
        has_first(before, classes, n),
        can_register(before.registered().dom(), classes[n]),
        after.class_names == before.class_names.insert(classes[n].name),
        before.registered().insert(classes[n].name, class).submap_of(after.registered()),
        classes[n].constants.len() == 0 ==> after.registered() == before.registered().insert(
            classes[n].name,
            class,
        ),
    ensures
        has_first(after, classes, n + 1),
{
    lemma_first_names(classes, n);
    let (a, b) = (
        oso_names().union(first_names(classes, n)),
        oso_names().union(first_names(classes, n + 1)),
    );
    assert(b =~= a.insert(classes[n].name));
    assert(registrable(classes, n)) by {
        assert(!a.contains(classes[n].name));
    }
    let (known, grown) = (before.registered(), after.registered());
    let with_class = known.insert(classes[n].name, class);
    assert(with_class.dom() =~= known.dom().insert(classes[n].name));
    assert forall|x: Seq<char>| #[trigger] b.contains(x) implies grown.dom().contains(x) by {
        assert(with_class.dom().contains(x));
    }
    assert forall|k: int| 0 <= k < n + 1 implies class_view(grown[(#[trigger] classes[k]).name])
        == classes[k] by {
        let name = classes[k].name;
        if k < n {
            assert(names_of(classes.take(n))[k] == name);
            assert(a.contains(name));
        }
        assert(with_class.dom().contains(name));
        assert(grown.dom().contains(name));
        assert(grown[name] == with_class[name]);
    }
    if first_are_plain(classes, n + 1) {
        assert(classes[n].constants.len() == 0);
        assert forall|i: int| 0 <= i < n implies (#[trigger] classes[i]).constants.len() == 0 by {}
        assert(first_are_plain(classes, n));
    }
}

/// A class that could not be registered after the first of the classes.
proof fn lemma_not_registered(b: OsoInitView, e: OsoInitError, classes: Seq<ClassView>, n: int)
    requires
        0 <= n < classes.len(),
        has_first(b, classes, n),
        !can_register(b.registered().dom(), classes[n]),
        match e {
            OsoInitError::AlreadyRegistered { name } => {
                b.class_names.contains(classes[n].name) && name@ == classes[n].name
            },
            OsoInitError::Registering { name, .. } => {
                !b.class_names.contains(classes[n].name) && name@ == classes[n].name
            },
            OsoInitError::Loading { .. } => false,
        },
    ensures
        is_registration_error(e, classes, n),
{
}

/// Returns an Oso handle for authorizing using the given authorization rules:
/// first the classes without snippets are registered, and then those of
/// resources, each with its snippet.
pub fn make_oso(base: String, classes: Vec<Class>, inits: Vec<Init>) -> (r: Result<
    OsoInit,
    OsoInitError,
>)
    requires
        all_plain(seq![base@] + snippets_of(inits@)),
    ensures
        is_oso_init(
            r,
            class_views(classes@) + init_views(inits@),
            seq![base@] + snippets_of(inits@),
        ),
{
    let ghost all = class_views(classes@) + init_views(inits@);
    let ghost first = classes@;
    let ghost second = inits@;
    let mut oso_builder = OsoInitBuilder::new(base);
    proof {
        let none = names_of(all.take(0));
        assert(none.to_set() =~= Set::<Seq<char>>::empty());
        assert(oso_names().union(first_names(all, 0)) =~= oso_names());
        assert(has_first(oso_builder@, all, 0));
    }
    for c in it: classes
        invariant
            it.seq() == first,
            first == classes@,
            second == inits@,
            all == class_views(first) + init_views(second),
            has_first(oso_builder@, all, it.index()),
            oso_builder@.snippets == seq![base@],
    {
        let ghost n = it.index();
        let ghost before = oso_builder@;
        let ghost class = c;
        assert(all[n] == class_view(c));
        match oso_builder.register_class(c) {
            Ok(b) => {
                proof {
                    lemma_one_more(before, b@, all, n, class);
                }
                oso_builder = b;
            },
            Err(e) => {
                proof {
                    lemma_not_registered(before, e, all, n);
                }
                return Err(e);
            },
        }
    }
    assert(seq![base@] + snippets_of(second).take(0) =~= seq![base@]);
    for init in it: inits
        invariant
            it.seq() == second,
            first == classes@,
            second == inits@,
            all == class_views(first) + init_views(second),
            has_first(oso_builder@, all, first.len() + it.index()),
            oso_builder@.snippets == seq![base@] + snippets_of(second).take(it.index()),
    {
        let ghost k = it.index();
        let ghost n = first.len() + k;
        let ghost before = oso_builder@;
        let ghost class = init.polar_class;
        assert(all[n] == class_view(class));
        match oso_builder.register_class_with_snippet(init) {
            Ok(b) => {
                proof {
                    lemma_one_more(before, b@, all, n, class);
                    assert(snippets_of(second).take(k + 1) =~= snippets_of(second).take(k).push(
                        init.polar_snippet@,
                    ));
                    assert(b@.snippets =~= seq![base@] + snippets_of(second).take(k + 1));
                }
                oso_builder = b;
            },
            Err(e) => {
                proof {
                    lemma_not_registered(before, e, all, n);
                }
                return Err(e);
            },
        }
    }
    assert(snippets_of(second).take(second.len() as int) =~= snippets_of(second));
    oso_builder.build()
}

// ---
// The classes of the control plane
// ---

/// The classes that are written by hand, other than those of [`Action`] and of
/// [`Database`].
pub struct HandWrittenClasses {
    pub any_actor: Class,
    pub authenticated_actor: Class,
    pub blueprint_config: Class,
    pub dns_config: Class,
    pub fleet: Class,
    pub inventory: Class,
    pub ip_pool_list: Class,
    pub console_session_list: Class,
    pub device_auth_request_list: Class,
    pub silo_certificate_list: Class,
    pub silo_identity_provider_list: Class,
    pub silo_user_list: Class,
    pub update_trust_root_list: Class,
    pub target_release_config: Class,
    pub alert_class_list: Class,
}

/// What the resources of the control plane configure, in the order in which they
/// are registered.
pub struct GeneratedInits {
    pub project: Init,
    pub disk: Init,
    pub snapshot: Init,
    pub project_image: Init,
    pub affinity_group: Init,
    pub anti_affinity_group: Init,
    pub instance: Init,
    pub ip_pool: Init,
    pub instance_network_interface: Init,
    pub vpc: Init,
    pub vpc_router: Init,
    pub internet_gateway: Init,
    pub internet_gateway_ip_pool: Init,
    pub internet_gateway_ip_address: Init,
    pub router_route: Init,
    pub vpc_subnet: Init,
    pub floating_ip: Init,
    pub image: Init,
    pub silo_image: Init,
    pub address_lot: Init,
    pub blueprint: Init,
    pub loopback_address: Init,
    pub certificate: Init,
    pub console_session: Init,
    pub device_auth_request: Init,
    pub device_access_token: Init,
    pub physical_disk: Init,
    pub rack: Init,
    pub ssh_key: Init,
    pub silo: Init,
    pub silo_user: Init,
    pub silo_group: Init,
    pub support_bundle: Init,
    pub identity_provider: Init,
    pub saml_identity_provider: Init,
    pub sled: Init,
    pub tuf_repo: Init,
    pub tuf_artifact: Init,
    pub tuf_trust_root: Init,
    pub alert: Init,
    pub alert_receiver: Init,
    pub webhook_secret: Init,
    pub zpool: Init,
    pub service: Init,
    pub user_builtin: Init,
}

/// The classes that are written by hand, in the order in which they are
/// registered.
pub open spec fn hand_written(classes: HandWrittenClasses) -> Seq<ClassView> {
    seq![
        action_class_view(),
        class_view(classes.any_actor),
        class_view(classes.authenticated_actor),
        class_view(classes.blueprint_config),
        database_class_view(),
        class_view(classes.dns_config),
        class_view(classes.fleet),
        class_view(classes.inventory),
        class_view(classes.ip_pool_list),
        class_view(classes.console_session_list),
        class_view(classes.device_auth_request_list),
        class_view(classes.silo_certificate_list),
        class_view(classes.silo_identity_provider_list),
        class_view(classes.silo_user_list),
        class_view(classes.update_trust_root_list),
        class_view(classes.target_release_config),
        class_view(classes.alert_class_list),
    ]
}

/// What the resources configure, in the order in which they are registered.
pub open spec fn generated(inits: GeneratedInits) -> Seq<Init> {
    seq![
        inits.project,
        inits.disk,
        inits.snapshot,
        inits.project_image,
        inits.affinity_group,
        inits.anti_affinity_group,
        inits.instance,
        inits.ip_pool,
        inits.instance_network_interface,
        inits.vpc,
        inits.vpc_router,
        inits.internet_gateway,
        inits.internet_gateway_ip_pool,
        inits.internet_gateway_ip_address,
        inits.router_route,
        inits.vpc_subnet,
        inits.floating_ip,
        inits.image,
        inits.silo_image,
        inits.address_lot,
        inits.blueprint,
        inits.loopback_address,
        inits.certificate,
        inits.console_session,
        inits.device_auth_request,
        inits.device_access_token,
        inits.physical_disk,
        inits.rack,
        inits.ssh_key,
        inits.silo,
        inits.silo_user,
        inits.silo_group,
        inits.support_bundle,
        inits.identity_provider,
        inits.saml_identity_provider,
        inits.sled,
        inits.tuf_repo,
        inits.tuf_artifact,
        inits.tuf_trust_root,
        inits.alert,
        inits.alert_receiver,
        inits.webhook_secret,
        inits.zpool,
        inits.service,
        inits.user_builtin,
    ]
}

/// All classes of the control plane, in the order in which they are registered.
pub open spec fn omicron_classes(
    classes: HandWrittenClasses,
    inits: GeneratedInits,
) -> Seq<ClassView> {
    hand_written(classes) + init_views(generated(inits))
}

/// The Polar names of the classes that are written by hand, in the order in which
/// they are registered.
pub open spec fn hand_written_names() -> Seq<Seq<char>> {
    seq![
        "Action"@,
        "AnyActor"@,
        "AuthenticatedActor"@,
        "BlueprintConfig"@,
        "Database"@,
        "DnsConfig"@,
        "Fleet"@,
        "Inventory"@,
        "IpPoolList"@,
        "ConsoleSessionList"@,
        "DeviceAuthRequestList"@,
        "SiloCertificateList"@,
        "SiloIdentityProviderList"@,
        "SiloUserList"@,
        "UpdateTrustRootList"@,
        "TargetReleaseConfig"@,
        "AlertClassList"@,
    ]
}

/// The Polar names of the resources, in the order in which they are registered.
pub open spec fn generated_names() -> Seq<Seq<char>> {
    seq![
        "Project"@,
        "Disk"@,
        "Snapshot"@,
        "ProjectImage"@,
        "AffinityGroup"@,
        "AntiAffinityGroup"@,
        "Instance"@,
        "IpPool"@,
        "InstanceNetworkInterface"@,
        "Vpc"@,
        "VpcRouter"@,
        "InternetGateway"@,
        "InternetGatewayIpPool"@,
        "InternetGatewayIpAddress"@,
        "RouterRoute"@,
        "VpcSubnet"@,
        "FloatingIp"@,
        "Image"@,
        "SiloImage"@,
        "AddressLot"@,
        "Blueprint"@,
        "LoopbackAddress"@,
        "Certificate"@,
        "ConsoleSession"@,
        "DeviceAuthRequest"@,
        "DeviceAccessToken"@,
        "PhysicalDisk"@,
        "Rack"@,
        "SshKey"@,
        "Silo"@,
        "SiloUser"@,
        "SiloGroup"@,
        "SupportBundle"@,
        "IdentityProvider"@,
        "SamlIdentityProvider"@,
        "Sled"@,
        "TufRepo"@,
        "TufArtifact"@,
        "TufTrustRoot"@,
        "Alert"@,
        "AlertReceiver"@,
        "WebhookSecret"@,
        "Zpool"@,
        "Service"@,
        "UserBuiltin"@,
    ]
}

/// Whether the classes of the control plane bear their names.
pub open spec fn bear_their_names(classes: HandWrittenClasses, inits: GeneratedInits) -> bool {
    &&& names_of(hand_written(classes)) == hand_written_names()
    &&& names_of(init_views(generated(inits))) == generated_names()
}

/// The configuration of the control plane: its base, and the snippet of each
/// resource.
pub open spec fn omicron_snippets(base: Seq<char>, inits: GeneratedInits) -> Seq<Seq<char>> {
    seq![base] + snippets_of(generated(inits))
}

/// The classes that are written by hand, in order.
fn hand_written_list(classes: HandWrittenClasses) -> (r: Vec<Class>)
    ensures
        class_views(r@) == hand_written(classes),
{
    let list = vec![
        Action::get_polar_class(),
        classes.any_actor,
        classes.authenticated_actor,
        classes.blueprint_config,
        Database::get_polar_class(),
        classes.dns_config,
        classes.fleet,
        classes.inventory,
        classes.ip_pool_list,
        classes.console_session_list,
        classes.device_auth_request_list,
        classes.silo_certificate_list,
        classes.silo_identity_provider_list,
        classes.silo_user_list,
        classes.update_trust_root_list,
        classes.target_release_config,
        classes.alert_class_list,
    ];
    assert(class_views(list@) =~= hand_written(classes));
    list
}

/// What the resources configure, in order.
fn generated_list(inits: GeneratedInits) -> (r: Vec<Init>)
    ensures
        r@ == generated(inits),
{
    let list = vec![
        inits.project,
        inits.disk,
        inits.snapshot,
        inits.project_image,
        inits.affinity_group,
        inits.anti_affinity_group,
        inits.instance,
        inits.ip_pool,
        inits.instance_network_interface,
        inits.vpc,
        inits.vpc_router,
        inits.internet_gateway,
        inits.internet_gateway_ip_pool,
        inits.internet_gateway_ip_address,
        inits.router_route,
        inits.vpc_subnet,
        inits.floating_ip,
        inits.image,
        inits.silo_image,
        inits.address_lot,
        inits.blueprint,
        inits.loopback_address,
        inits.certificate,
        inits.console_session,
        inits.device_auth_request,
        inits.device_access_token,
        inits.physical_disk,
        inits.rack,
        inits.ssh_key,
        inits.silo,
        inits.silo_user,
        inits.silo_group,
        inits.support_bundle,
        inits.identity_provider,
        inits.saml_identity_provider,
        inits.sled,
        inits.tuf_repo,
        inits.tuf_artifact,
        inits.tuf_trust_root,
        inits.alert,
        inits.alert_receiver,
        inits.webhook_secret,
        inits.zpool,
        inits.service,
        inits.user_builtin,
    ];
    assert(list@ =~= generated(inits));
    list
}

/// Returns an Oso handle suitable for authorizing using the authorization rules
/// of the control plane.
pub fn make_omicron_oso(
    base: String,
    classes: HandWrittenClasses,
    inits: GeneratedInits,
) -> (r: Result<OsoInit, OsoInitError>)
    requires
        all_plain(omicron_snippets(base@, inits)),
    ensures
        is_oso_init(r, omicron_classes(classes, inits), omicron_snippets(base@, inits)),
        r is Ok ==> texts(r->Ok_0.class_names@).contains("Action"@) && texts(
            r->Ok_0.class_names@,
        ).contains("Database"@),
{
    let r = make_oso(base, hand_written_list(classes), generated_list(inits));
    proof {
        if r is Ok {
            let all = omicron_classes(classes, inits);
            lemma_is_listed(r, all, omicron_snippets(base@, inits), 0);
            lemma_is_listed(r, all, omicron_snippets(base@, inits), 4);
        }
    }
    r
}

/// Each class of an environment that was set up is listed.
proof fn lemma_is_listed(
    r: Result<OsoInit, OsoInitError>,
    classes: Seq<ClassView>,
    snippets: Seq<Seq<char>>,
    i: int,
)
    requires
        is_oso_init(r, classes, snippets),
        r is Ok,
        0 <= i < classes.len(),
    ensures
        texts(r->Ok_0.class_names@).contains(classes[i].name),
{
    let names = names_of(classes.take(classes.len() as int));
    assert(names[i] == classes[i].name);
    assert(names.to_set().contains(names[i]));
    assert(texts(r->Ok_0.class_names@).to_set().contains(names[i]));
}

// ---
// Laws
// ---

/// An environment is never set up with two classes of the same name.
pub proof fn law_no_duplicate_classes(
    r: Result<OsoInit, OsoInitError>,
    classes: Seq<ClassView>,
    snippets: Seq<Seq<char>>,
    i: int,
    j: int,
)
    requires
        is_oso_init(r, classes, snippets),
        0 <= i < j < classes.len(),
        classes[i].name == classes[j].name,
    ensures
        r is Err,
        !(r->Err_0 is Loading),
{
    let names = names_of(classes.take(j));
    assert(names[i] == classes[j].name);
    assert(first_names(classes, j).contains(classes[j].name));
    assert(!registrable(classes, j));
}

/// Where no class adds constants, an environment gets as far as loading its
/// configuration just where each class can be registered after those before it.
pub proof fn law_plain_classes_register(
    r: Result<OsoInit, OsoInitError>,
    classes: Seq<ClassView>,
    snippets: Seq<Seq<char>>,
)
    requires
        is_oso_init(r, classes, snippets),
        first_are_plain(classes, classes.len() as int),
    ensures
        (r is Ok || r->Err_0 is Loading) <==> forall|k: int|
            0 <= k < classes.len() ==> registrable(classes, k),
{
    if r is Err && !(r->Err_0 is Loading) {
        let k = choose|k: int| is_registration_error(r->Err_0, classes, k);
        assert forall|i: int| 0 <= i < k implies (#[trigger] classes[i]).constants.len() == 0 by {}
        assert(!registrable(classes, k));
    }
}

/// A new environment takes the classes of actions and of the database, in either
/// order.
pub proof fn law_own_classes_register()
    ensures
        can_register(oso_names(), action_class_view()),
        can_register(oso_names(), database_class_view()),
        can_register(oso_names().insert("Action"@), database_class_view()),
        can_register(oso_names().insert("Database"@), action_class_view()),
{
    reveal_strlit("Action");
    reveal_strlit("Database");
    reveal_strlit("Actor");
    reveal_strlit("Resource");
    reveal_strlit("oso::host::Class");
    reveal_strlit("Boolean");
    reveal_strlit("Integer");
    reveal_strlit("Float");
    reveal_strlit("List");
    reveal_strlit("Dictionary");
    reveal_strlit("String");
    reveal_strlit("Option");
    assert("Action"@.len() == 6 && "Database"@.len() == 8);
    assert("Action"@[0] == 'A' && "String"@[0] == 'S' && "Option"@[0] == 'O');
    assert("Database"@[0] == 'D' && "Resource"@[0] == 'R');
}

/// There is one way to list names in order.
pub proof fn law_one_list_of_names(a: Seq<Seq<char>>, b: Seq<Seq<char>>, names: Set<Seq<char>>)
    requires
        lists_names(a, names),
        lists_names(b, names),
    ensures
        a == b,
    decreases a.len(),
{
    if a.len() == 0 || b.len() == 0 {
        if a.len() > 0 {
            assert(a.to_set().contains(a[0]));
            assert(b.to_set().contains(a[0]));
        }
        if b.len() > 0 {
            assert(b.to_set().contains(b[0]));
            assert(a.to_set().contains(b[0]));
        }
        assert(a =~= b);
    } else {
        let (x, y) = (a.last(), b.last());
        assert(a.to_set().contains(x) && b.to_set().contains(y));
        assert(b.to_set().contains(x) && a.to_set().contains(y));
        let k = choose|k: int| 0 <= k < b.len() && b[k] == x;
        let j = choose|j: int| 0 <= j < a.len() && a[j] == y;
        if x != y {
            assert(text_before(b[k], b[b.len() - 1]));
            assert(text_before(a[j], a[a.len() - 1]));
            lemma_text_before_asymmetric(x, y);
        }
        lemma_without_last(a, names);
        lemma_without_last(b, names);
        law_one_list_of_names(a.drop_last(), b.drop_last(), names.remove(x));
        assert(a =~= a.drop_last().push(x));
        assert(b =~= b.drop_last().push(x));
    }
}

proof fn lemma_without_last(list: Seq<Seq<char>>, names: Set<Seq<char>>)
    requires
        lists_names(list, names),
        list.len() > 0,
    ensures
        lists_names(list.drop_last(), names.remove(list.last())),
{
    let (rest, x) = (list.drop_last(), list.last());
    assert forall|i: int, j: int|
        #![trigger rest[i], rest[j]]
        0 <= i < j < rest.len() implies text_before(rest[i], rest[j]) by {
        assert(text_before(list[i], list[j]));
    }
    assert forall|n: Seq<char>| #[trigger] rest.to_set().contains(n) == names.remove(x).contains(
        n,
    ) by {
        if rest.to_set().contains(n) {
            let i = choose|i: int| 0 <= i < rest.len() && rest[i] == n;
            assert(list[i] == n);
            assert(list.to_set().contains(n));
            assert(text_before(list[i], list[list.len() - 1]));
            lemma_text_before_irreflexive(x);
        }
        if names.remove(x).contains(n) {
            assert(list.to_set().contains(n));
            let i = choose|i: int| 0 <= i < list.len() && list[i] == n;
            assert(rest[i] == n);
        }
    }
    assert(rest.to_set() =~= names.remove(x));
}

/// Names in order differ, so the list of them is as long as the set.
proof fn lemma_list_length(list: Seq<Seq<char>>, names: Set<Seq<char>>)
    requires
        lists_names(list, names),
    ensures
        names.len() == list.len(),
{
    assert forall|i: int, j: int| 0 <= i < j < list.len() implies list[i] != list[j] by {
        assert(text_before(list[i], list[j]));
        lemma_text_before_irreflexive(list[i]);
    }
    assert(list.no_duplicates());
    list.unique_seq_to_set();
}

/// The environment of the control plane has a class for each hand-written class
/// and each resource: none of them goes missing, or is listed twice.
pub proof fn law_every_class_is_listed_once(
    r: Result<OsoInit, OsoInitError>,
    base: Seq<char>,
    classes: HandWrittenClasses,
    inits: GeneratedInits,
)
    requires
        is_oso_init(r, omicron_classes(classes, inits), omicron_snippets(base, inits)),
        r is Ok,
    ensures
        r->Ok_0.class_names@.len() == 62,
        omicron_classes(classes, inits).len() == 62,
        forall|i: int|
            0 <= i < 62 ==> texts(r->Ok_0.class_names@).contains(
                (#[trigger] omicron_classes(classes, inits)[i]).name,
            ),
{
    let all = omicron_classes(classes, inits);
    let n = all.len() as int;
    assert(hand_written(classes).len() == 17);
    assert(generated(inits).len() == 45);
    let names = names_of(all.take(n));
    assert forall|i: int, j: int| 0 <= i < j < names.len() implies names[i] != names[j] by {
        if all[i].name == all[j].name {
            law_no_duplicate_classes(r, all, omicron_snippets(base, inits), i, j);
        }
    }
    assert(names.no_duplicates());
    names.unique_seq_to_set();
    lemma_list_length(texts(r->Ok_0.class_names@), first_names(all, n));
    assert forall|i: int| 0 <= i < 62 implies texts(r->Ok_0.class_names@).contains(
        (#[trigger] all[i]).name,
    ) by {
        lemma_is_listed(r, all, omicron_snippets(base, inits), i);
    }
}

/// Where the classes bear their names, the environment of the control plane lists
/// just those names.
pub proof fn law_names_of_the_control_plane(
    r: Result<OsoInit, OsoInitError>,
    base: Seq<char>,
    classes: HandWrittenClasses,
    inits: GeneratedInits,
)
    requires
        is_oso_init(r, omicron_classes(classes, inits), omicron_snippets(base, inits)),
        bear_their_names(classes, inits),
        r is Ok,
    ensures
        lists_names(
            texts(r->Ok_0.class_names@),
            (hand_written_names() + generated_names()).to_set(),
        ),
{
    let all = omicron_classes(classes, inits);
    let n = all.len() as int;
    assert(all.take(n) =~= all);
    assert(names_of(all) =~= names_of(hand_written(classes)) + names_of(
        init_views(generated(inits)),
    ));
}

/// Which permission each action needs, by its name in the Polar configuration:
/// reading an object or its policy needs "read", changing, deleting or changing the
/// policy of one needs "modify", and each of the other three has a permission of
/// its own.
pub proof fn law_permissions_of_actions(a: Action)
    ensures
        perm_for(a).text() == "read"@ <==> a is Read || a is ReadPolicy,
        perm_for(a).text() == "modify"@ <==> a is Modify || a is ModifyPolicy || a is Delete,
        perm_for(a).text() == "query"@ <==> a is Query,
        perm_for(a).text() == "list_children"@ <==> a is ListChildren,
        perm_for(a).text() == "create_child"@ <==> a is CreateChild,
{
    reveal_strlit("query");
    reveal_strlit("read");
    reveal_strlit("modify");
    reveal_strlit("list_children");
    reveal_strlit("create_child");
    assert("query"@.len() == 5 && "read"@.len() == 4 && "modify"@.len() == 6);
    assert("list_children"@.len() == 13 && "create_child"@.len() == 12);
}

/// To look and to change are asked for apart: no permission that an action which
/// looks needs is one that an action which changes needs.
pub proof fn law_looking_and_changing_are_apart(look: Action, change: Action)
    requires
        look is Read || look is ReadPolicy || look is ListChildren || look is Query,
        change is Modify || change is ModifyPolicy || change is Delete || change is CreateChild,
    ensures
        perm_for(look).text() != perm_for(change).text(),
{
    law_permissions_of_actions(look);
    law_permissions_of_actions(change);
}

/// Each class that is given is registered, in its place among the others, and with
/// those of actions and of the database: none is left out for another.
pub proof fn law_given_classes_are_registered(classes: HandWrittenClasses, inits: GeneratedInits)
    ensures
        ({
            let all = omicron_classes(classes, inits);
            &&& all.len() == 62
            &&& all[0].name == "Action"@
            &&& all[1].name == class_name(classes.any_actor)
            &&& all[2].name == class_name(classes.authenticated_actor)
            &&& all[3].name == class_name(classes.blueprint_config)
            &&& all[4].name == "Database"@
            &&& all[5].name == class_name(classes.dns_config)
            &&& all[6].name == class_name(classes.fleet)
            &&& all[7].name == class_name(classes.inventory)
            &&& all[8].name == class_name(classes.ip_pool_list)
            &&& all[9].name == class_name(classes.console_session_list)
            &&& all[10].name == class_name(classes.device_auth_request_list)
            &&& all[11].name == class_name(classes.silo_certificate_list)
            &&& all[12].name == class_name(classes.silo_identity_provider_list)
            &&& all[13].name == class_name(classes.silo_user_list)
            &&& all[14].name == class_name(classes.update_trust_root_list)
            &&& all[15].name == class_name(classes.target_release_config)
            &&& all[16].name == class_name(classes.alert_class_list)
            &&& all[17].name == class_name(inits.project.polar_class)
            &&& all[18].name == class_name(inits.disk.polar_class)
            &&& all[19].name == class_name(inits.snapshot.polar_class)
            &&& all[20].name == class_name(inits.project_image.polar_class)
            &&& all[21].name == class_name(inits.affinity_group.polar_class)
            &&& all[22].name == class_name(inits.anti_affinity_group.polar_class)
            &&& all[23].name == class_name(inits.instance.polar_class)
            &&& all[24].name == class_name(inits.ip_pool.polar_class)
            &&& all[25].name == class_name(inits.instance_network_interface.polar_class)
            &&& all[26].name == class_name(inits.vpc.polar_class)
            &&& all[27].name == class_name(inits.vpc_router.polar_class)
            &&& all[28].name == class_name(inits.internet_gateway.polar_class)
            &&& all[29].name == class_name(inits.internet_gateway_ip_pool.polar_class)
            &&& all[30].name == class_name(inits.internet_gateway_ip_address.polar_class)
            &&& all[31].name == class_name(inits.router_route.polar_class)
            &&& all[32].name == class_name(inits.vpc_subnet.polar_class)
            &&& all[33].name == class_name(inits.floating_ip.polar_class)
            &&& all[34].name == class_name(inits.image.polar_class)
            &&& all[35].name == class_name(inits.silo_image.polar_class)
            &&& all[36].name == class_name(inits.address_lot.polar_class)
            &&& all[37].name == class_name(inits.blueprint.polar_class)
            &&& all[38].name == class_name(inits.loopback_address.polar_class)
            &&& all[39].name == class_name(inits.certificate.polar_class)
            &&& all[40].name == class_name(inits.console_session.polar_class)
            &&& all[41].name == class_name(inits.device_auth_request.polar_class)
            &&& all[42].name == class_name(inits.device_access_token.polar_class)
            &&& all[43].name == class_name(inits.physical_disk.polar_class)
            &&& all[44].name == class_name(inits.rack.polar_class)
            &&& all[45].name == class_name(inits.ssh_key.polar_class)
            &&& all[46].name == class_name(inits.silo.polar_class)
            &&& all[47].name == class_name(inits.silo_user.polar_class)
            &&& all[48].name == class_name(inits.silo_group.polar_class)
            &&& all[49].name == class_name(inits.support_bundle.polar_class)
            &&& all[50].name == class_name(inits.identity_provider.polar_class)
            &&& all[51].name == class_name(inits.saml_identity_provider.polar_class)
            &&& all[52].name == class_name(inits.sled.polar_class)
            &&& all[53].name == class_name(inits.tuf_repo.polar_class)
            &&& all[54].name == class_name(inits.tuf_artifact.polar_class)
            &&& all[55].name == class_name(inits.tuf_trust_root.polar_class)
            &&& all[56].name == class_name(inits.alert.polar_class)
            &&& all[57].name == class_name(inits.alert_receiver.polar_class)
            &&& all[58].name == class_name(inits.webhook_secret.polar_class)
            &&& all[59].name == class_name(inits.zpool.polar_class)
            &&& all[60].name == class_name(inits.service.polar_class)
            &&& all[61].name == class_name(inits.user_builtin.polar_class)
        }),
{
    assert(hand_written(classes).len() == 17);
    assert(generated(inits).len() == 45);
}

/// The configuration that is loaded has the base first, and then the snippet of
/// each resource that is given.
pub proof fn law_given_snippets_are_loaded(base: Seq<char>, inits: GeneratedInits)
    ensures
        ({
            let all = omicron_snippets(base, inits);
            &&& all.len() == 46
            &&& all[0] == base
            &&& all[1] == inits.project.polar_snippet@
            &&& all[2] == inits.disk.polar_snippet@
            &&& all[3] == inits.snapshot.polar_snippet@
            &&& all[4] == inits.project_image.polar_snippet@
            &&& all[5] == inits.affinity_group.polar_snippet@
            &&& all[6] == inits.anti_affinity_group.polar_snippet@
            &&& all[7] == inits.instance.polar_snippet@
            &&& all[8] == inits.ip_pool.polar_snippet@
            &&& all[9] == inits.instance_network_interface.polar_snippet@
            &&& all[10] == inits.vpc.polar_snippet@
            &&& all[11] == inits.vpc_router.polar_snippet@
            &&& all[12] == inits.internet_gateway.polar_snippet@
            &&& all[13] == inits.internet_gateway_ip_pool.polar_snippet@
            &&& all[14] == inits.internet_gateway_ip_address.polar_snippet@
            &&& all[15] == inits.router_route.polar_snippet@
            &&& all[16] == inits.vpc_subnet.polar_snippet@
            &&& all[17] == inits.floating_ip.polar_snippet@
            &&& all[18] == inits.image.polar_snippet@
            &&& all[19] == inits.silo_image.polar_snippet@
            &&& all[20] == inits.address_lot.polar_snippet@
            &&& all[21] == inits.blueprint.polar_snippet@
            &&& all[22] == inits.loopback_address.polar_snippet@
            &&& all[23] == inits.certificate.polar_snippet@
            &&& all[24] == inits.console_session.polar_snippet@
            &&& all[25] == inits.device_auth_request.polar_snippet@
            &&& all[26] == inits.device_access_token.polar_snippet@
            &&& all[27] == inits.physical_disk.polar_snippet@
            &&& all[28] == inits.rack.polar_snippet@
            &&& all[29] == inits.ssh_key.polar_snippet@
            &&& all[30] == inits.silo.polar_snippet@
            &&& all[31] == inits.silo_user.polar_snippet@
            &&& all[32] == inits.silo_group.polar_snippet@
            &&& all[33] == inits.support_bundle.polar_snippet@
            &&& all[34] == inits.identity_provider.polar_snippet@
            &&& all[35] == inits.saml_identity_provider.polar_snippet@
            &&& all[36] == inits.sled.polar_snippet@
            &&& all[37] == inits.tuf_repo.polar_snippet@
            &&& all[38] == inits.tuf_artifact.polar_snippet@
            &&& all[39] == inits.tuf_trust_root.polar_snippet@
            &&& all[40] == inits.alert.polar_snippet@
            &&& all[41] == inits.alert_receiver.polar_snippet@
            &&& all[42] == inits.webhook_secret.polar_snippet@
            &&& all[43] == inits.zpool.polar_snippet@
            &&& all[44] == inits.service.polar_snippet@
            &&& all[45] == inits.user_builtin.polar_snippet@
        }),
{
    assert(generated(inits).len() == 45);
}

/// The configuration holds each snippet whole, on lines of its own.
pub proof fn law_configuration_holds_each_snippet(snippets: Seq<Seq<char>>, i: int) -> (at: int)
    requires
        0 <= i < snippets.len(),
    ensures
        ({
            let (all, part) = (join(snippets, "\n"@), snippets[i]);
            &&& 0 <= at
            &&& at + part.len() <= all.len()
            &&& all.subrange(at, at + part.len()) == part
            &&& i == 0 ==> at == 0
            &&& i > 0 ==> at > 0 && all[at - 1] == '\n'
            &&& i < snippets.len() - 1 ==> at + part.len() < all.len() && all[at + part.len()]
                == '\n'
            &&& i == snippets.len() - 1 ==> at + part.len() == all.len()
        }),
    decreases snippets.len(),
{
    reveal_strlit("\n");
    let all = join(snippets, "\n"@);
    let part = snippets[i];
    if snippets.len() == 1 {
        assert(all.subrange(0, part.len() as int) =~= part);
        0
    } else {
        let before = join(snippets.drop_last(), "\n"@);
        assert(all == before + "\n"@ + snippets.last());
        assert(all[before.len() as int] == '\n');
        if i == snippets.len() - 1 {
            let at = before.len() as int + 1;
            assert(all.subrange(at, at + part.len()) =~= part);
            at
        } else {
            let at = law_configuration_holds_each_snippet(snippets.drop_last(), i);
            assert(snippets.drop_last()[i] == part);
            assert(all.subrange(at, at + part.len()) =~= part) by {
                assert forall|k: int| 0 <= k < part.len() implies all.subrange(
                    at,
                    at + part.len(),
                )[k] == part[k] by {
                    assert(before.subrange(at, at + part.len())[k] == before[at + k]);
                }
            }
            at
        }
    }
}

} // verus!
