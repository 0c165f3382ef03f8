//! The OpenXR registry as it is read from its file.

use vstd::prelude::*;
use vstd::string::*;

verus! {

/// A piece of a declaration.
#[derive(Debug)]
pub enum SignatureParts {
    Type(String),
    Name(String),
    Enum(String),
    Other(String),
}

#[derive(Debug)]
pub struct Signature {
    pub parts: Vec<SignatureParts>,
}

/// A command: either declared by `proto` and `param`, or another name for a command.
#[derive(Debug)]
pub struct Command {
    pub proto: Option<Signature>,
    pub param: Option<Vec<Signature>>,
    pub name: Option<String>,
    pub alias: Option<String>,
}

#[derive(Debug)]
pub struct ExtensionCommand {
    pub name: String,
}

#[derive(Debug)]
pub struct ExtensionRequire {
    pub command: Vec<ExtensionCommand>,
}

#[derive(Debug)]
pub struct Extension {
    pub name: String,
    pub require: Vec<ExtensionRequire>,
}

#[derive(Debug)]
pub enum TypePart {
    Name(String),
    Other,
}

#[derive(Debug)]
pub struct Type {
    pub category: Option<String>,
    pub parent: Option<String>,
    pub parts: Vec<TypePart>,
}

#[derive(Debug)]
pub enum Section {
    Commands { command: Vec<Command> },
    Enums,
    Comment,
    Vendorids,
    Tags,
    Types { types: Vec<Type> },
    InteractionProfiles,
    Feature,
    Extensions { extension: Vec<Extension> },
    Other(String),
}

#[derive(Debug)]
pub struct Spec {
    pub sections: Vec<Section>,
}

/// The first name among the parts of a declaration.
pub open spec fn name_in(parts: Seq<SignatureParts>) -> Option<Seq<char>>
    decreases parts.len(),
{
    if parts.len() == 0 {
        None
    } else {
        match parts[0] {
            SignatureParts::Name(name) => Some(name@),
            _ => name_in(parts.subrange(1, parts.len() as int)),
        }
    }
}

/// The first name among the parts of a declaration.
pub fn find_name(parts: &[SignatureParts]) -> (r: Option<&String>)
    ensures
        match r {
            Some(name) => name_in(parts@) == Some(name@),
            None => name_in(parts@) is None,
        },
{
    let mut i: usize = 0;
    assert(parts@.subrange(0, parts@.len() as int) =~= parts@);
    while i < parts.len()
        invariant
            i <= parts.len(),
            name_in(parts@) == name_in(parts@.subrange(i as int, parts@.len() as int)),
        decreases parts.len() - i,
    {
        let ghost rest = parts@.subrange(i as int, parts@.len() as int);
        assert(rest[0] == parts@[i as int]);
        assert(rest.subrange(1, rest.len() as int) =~= parts@.subrange(
            i + 1,
            parts@.len() as int,
        ));
        match &parts[i] {
            SignatureParts::Name(name) => return Some(name),
            _ => (),
        }
        i += 1;
    }
    None
}

impl Command {
    /// The name that the command has itself, or else the name in its declaration.
    pub open spec fn spec_name(&self) -> Option<Seq<char>> {
        match self.name {
            Some(name) => Some(name@),
            None => match self.proto {
                Some(proto) => name_in(proto.parts@),
                None => None,
            },
        }
    }

    /// The name of the command, if it has one.
    pub fn find_name(&self) -> (r: Option<&String>)
        ensures
            match r {
                Some(name) => self.spec_name() == Some(name@),
                None => self.spec_name() is None,
            },
    {
        match &self.name {
            Some(name) => Some(name),
            None => match &self.proto {
                Some(proto) => find_name(proto.parts.as_slice()),
                None => None,
            },
        }
    }

    /// The name of a command that has one.
    pub fn name(&self) -> (r: &str)
        requires
            self.spec_name() is Some,
        ensures
            Some(r@) == self.spec_name(),
    {
        match self.find_name() {
            Some(name) => name.as_str(),
            None => "",
        }
    }
}

/// The first name among the parts of a type.
pub open spec fn type_name_in(parts: Seq<TypePart>) -> Option<Seq<char>>
    decreases parts.len(),
{
    if parts.len() == 0 {
        None
    } else {
        match parts[0] {
            TypePart::Name(name) => Some(name@),
            _ => type_name_in(parts.subrange(1, parts.len() as int)),
        }
    }
}

impl Type {
    /// The first name among the parts of the type.
    pub fn find_name(&self) -> (r: Option<&String>)
        ensures
            match r {
                Some(name) => type_name_in(self.parts@) == Some(name@),
                None => type_name_in(self.parts@) is None,
            },
    {
        let ghost parts = self.parts@;
        let mut i: usize = 0;
        assert(parts.subrange(0, parts.len() as int) =~= parts);
        while i < self.parts.len()
            invariant
                i <= self.parts.len(),
                parts == self.parts@,
                type_name_in(parts) == type_name_in(parts.subrange(i as int, parts.len() as int)),
            decreases self.parts.len() - i,
        {
            let ghost rest = parts.subrange(i as int, parts.len() as int);
            assert(rest[0] == parts[i as int]);
            assert(rest.subrange(1, rest.len() as int) =~= parts.subrange(
                i + 1,
                parts.len() as int,
            ));
            match &self.parts[i] {
                TypePart::Name(name) => return Some(name),
                _ => (),
            }
            i += 1;
        }
        None
    }
}

/// `name` is the first name among the parts.
pub open spec fn first_name(parts: Seq<SignatureParts>, name: Seq<char>) -> bool {
    exists|i: int|
        0 <= i < parts.len() && (#[trigger] parts[i] matches SignatureParts::Name(n) && n@ == name)
            && forall|j: int| 0 <= j < i ==> !(#[trigger] parts[j] is Name)
}

/// `name` is the first name among the parts of a type.
pub open spec fn first_type_name(parts: Seq<TypePart>, name: Seq<char>) -> bool {
    exists|i: int|
        0 <= i < parts.len() && (#[trigger] parts[i] matches TypePart::Name(n) && n@ == name)
            && forall|j: int| 0 <= j < i ==> !(#[trigger] parts[j] is Name)
}

/// The name of a declaration is the first name among its parts, wherever it stands; there is none
/// only if no part is a name.
pub proof fn law_first_name_counts(parts: Seq<SignatureParts>)
    ensures
        match name_in(parts) {
            Some(name) => first_name(parts, name),
            None => forall|i: int| 0 <= i < parts.len() ==> !(#[trigger] parts[i] is Name),
        },
    decreases parts.len(),
{
    if parts.len() > 0 && !(parts[0] is Name) {
        let rest = parts.subrange(1, parts.len() as int);
        law_first_name_counts(rest);
        match name_in(rest) {
            Some(name) => {
                let i = choose|i: int|
                    0 <= i < rest.len() && (#[trigger] rest[i] matches SignatureParts::Name(n)
                        && n@ == name) && forall|j: int|
                        0 <= j < i ==> !(#[trigger] rest[j] is Name);
                assert(parts[i + 1] == rest[i]);
                assert forall|j: int| 0 <= j < i + 1 implies !(#[trigger] parts[j] is Name) by {
                    if j > 0 {
                        assert(parts[j] == rest[j - 1]);
                    }
                }
            },
            None => {
                assert forall|i: int| 0 <= i < parts.len() implies !(#[trigger] parts[i] is Name) by {
                    if i > 0 {
                        assert(parts[i] == rest[i - 1]);
                    }
                }
            },
        }
    }
}

/// The same of types.
pub proof fn law_first_type_name_counts(parts: Seq<TypePart>)
    ensures
        match type_name_in(parts) {
            Some(name) => first_type_name(parts, name),
            None => forall|i: int| 0 <= i < parts.len() ==> !(#[trigger] parts[i] is Name),
        },
    decreases parts.len(),
{
    if parts.len() > 0 && !(parts[0] is Name) {
        let rest = parts.subrange(1, parts.len() as int);
        law_first_type_name_counts(rest);
        match type_name_in(rest) {
            Some(name) => {
                let i = choose|i: int|
                    0 <= i < rest.len() && (#[trigger] rest[i] matches TypePart::Name(n) && n@
                        == name) && forall|j: int| 0 <= j < i ==> !(#[trigger] rest[j] is Name);
                assert(parts[i + 1] == rest[i]);
                assert forall|j: int| 0 <= j < i + 1 implies !(#[trigger] parts[j] is Name) by {
                    if j > 0 {
                        assert(parts[j] == rest[j - 1]);
                    }
                }
            },
            None => {
                assert forall|i: int| 0 <= i < parts.len() implies !(#[trigger] parts[i] is Name) by {
                    if i > 0 {
                        assert(parts[i] == rest[i - 1]);
                    }
                }
            },
        }
    }
}

/// A command has the name that it gives itself, and only without one that of its declaration.
pub proof fn law_command_has_its_name(c: &Command, found: Option<&String>)
    requires
        call_ensures(Command::find_name, (c,), found),
    ensures
        c.name matches Some(name) ==> c.spec_name() == Some(name@) && (found matches Some(f) && f@
            == name@),
        c.name is None ==> (c.proto matches Some(proto) ==> match found {
            Some(f) => first_name(proto.parts@, f@) && c.spec_name() == Some(f@),
            None => c.spec_name() is None && forall|i: int|
                0 <= i < proto.parts@.len() ==> !(#[trigger] proto.parts@[i] is Name),
        }),
        c.name is None && c.proto is None ==> found is None && c.spec_name() is None,
        forall|r: &str| #[trigger]
            call_ensures(Command::name, (c,), r) ==> c.spec_name() == Some(r@),
        forall|t: &Type, r: Option<&String>| #[trigger]
            call_ensures(Type::find_name, (t,), r) ==> match r {
                Some(f) => type_name_in(t.parts@) == Some(f@),
                None => type_name_in(t.parts@) is None,
            },
{
    match c.proto {
        Some(proto) => law_first_name_counts(proto.parts@),
        None => {},
    }
}

} // verus!
