//! The tables that the macros need, drawn from the OpenXR registry.

use crate::codegen::model::{
    accepted, check_signature, creation_form, declarations, declared_by, opt_creation,
    parent_is_known, Callable, Command, CreateCommand, Creation, Declared, Signature,
};
use crate::codegen::spec;
use crate::codegen::spec::{type_name_in, ExtensionCommand, ExtensionRequire, Section, Spec};
use crate::text::{has_prefix, starts_with, str_eq, texts};
use crate::textmap::TextMap;
use vstd::prelude::*;
use vstd::string::*;

verus! {

/// Why a registry cannot be used.
#[derive(Debug, Clone, Copy, PartialEq, Eq, Structural)]
pub enum SpecError {
    HandleWithoutName,
    HandleWithoutParent,
    /// A command has no name, or one of its declarations cannot be read.
    MalformedCommand,
    NoProto,
    NoParams,
    /// A command creates a handle type that no handle type is the parent of.
    MissingParent,
}

pub type Names = Map<Seq<char>, Seq<char>>;

/// `map` with an entry to `extension` for each command.
pub open spec fn with_commands(
    map: Names,
    commands: Seq<ExtensionCommand>,
    extension: Seq<char>,
) -> Names
    decreases commands.len(),
{
    if commands.len() == 0 {
        map
    } else {
        with_commands(map, commands.drop_last(), extension).insert(
            commands.last().name@,
            extension,
        )
    }
}

/// `map` with an entry to `extension` for each command that it requires.
pub open spec fn with_requires(
    map: Names,
    requires_: Seq<ExtensionRequire>,
    extension: Seq<char>,
) -> Names
    decreases requires_.len(),
{
    if requires_.len() == 0 {
        map
    } else {
        with_commands(
            with_requires(map, requires_.drop_last(), extension),
            requires_.last().command@,
            extension,
        )
    }
}

/// `map` with an entry for each command of each extension.
pub open spec fn with_extensions(map: Names, extensions: Seq<spec::Extension>) -> Names
    decreases extensions.len(),
{
    if extensions.len() == 0 {
        map
    } else {
        with_requires(
            with_extensions(map, extensions.drop_last()),
            extensions.last().require@,
            extensions.last().name@,
        )
    }
}

/// The extension that each command of an extension belongs to; of several, the last.
pub open spec fn extension_table(sections: Seq<Section>) -> Names
    decreases sections.len(),
{
    if sections.len() == 0 {
        Map::empty()
    } else {
        match sections.last() {
            Section::Extensions { extension } => with_extensions(
                extension_table(sections.drop_last()),
                extension@,
            ),
            _ => extension_table(sections.drop_last()),
        }
    }
}

/// A type that is a handle and not the instance, whose name may be missing.
pub open spec fn is_child_handle(t: spec::Type) -> bool {
    &&& type_name_in(t.parts@) != Some("XrInstance"@)
    &&& t.category matches Some(category) && category@ == "handle"@
}

/// `map` with the parent of each handle type.
pub open spec fn with_parents(map: Names, types: Seq<spec::Type>) -> Result<Names, SpecError>
    decreases types.len(),
{
    if types.len() == 0 {
        Ok(map)
    } else {
        match with_parents(map, types.drop_last()) {
            Err(e) => Err(e),
            Ok(m) => {
                let t = types.last();
                if !is_child_handle(t) {
                    Ok(m)
                } else {
                    match (type_name_in(t.parts@), t.parent) {
                        (None, _) => Err(SpecError::HandleWithoutName),
                        (Some(_), None) => Err(SpecError::HandleWithoutParent),
                        (Some(name), Some(parent)) => Ok(m.insert(name, parent@)),
                    }
                }
            },
        }
    }
}

/// The parent type of each handle type other than the instance.
pub open spec fn parent_table(sections: Seq<Section>) -> Result<Names, SpecError>
    decreases sections.len(),
{
    if sections.len() == 0 {
        Ok(Map::empty())
    } else {
        match parent_table(sections.drop_last()) {
            Err(e) => Err(e),
            Ok(m) => match sections.last() {
                Section::Types { types } => with_parents(m, types@),
                _ => Ok(m),
            },
        }
    }
}

/// Commands that create a handle but have no types to be wrapped with.
pub open spec fn is_excluded(name: Seq<char>) -> bool {
    name == "xrCreateSceneMSFT"@ || name == "xrCreateSceneObserverMSFT"@
}

/// Whether a command is looked at: it says that it creates, is not excluded, and is not another
/// name for a command.
pub open spec fn is_candidate(c: spec::Command) -> bool {
    c.spec_name() matches Some(name) && has_prefix(name, "xrCreate"@) && !is_excluded(name)
        && c.alias is None
}

/// What each of `params` declares, if all of them can be read.
pub open spec fn params_of(params: Seq<spec::Signature>) -> Option<Seq<Declared>>
    decreases params.len(),
{
    if params.len() == 0 {
        Some(Seq::empty())
    } else {
        match (params_of(params.drop_last()), declared_by(params.last().parts@)) {
            (Some(before), Some(last)) => Some(before.push(last)),
            _ => None,
        }
    }
}

/// What a command of the registry adds to the creating commands.
pub open spec fn creation_by(c: spec::Command, parent_of: Names) -> Result<
    Option<Creation>,
    SpecError,
> {
    if c.spec_name() is None {
        Err(SpecError::MalformedCommand)
    } else if !is_candidate(c) {
        Ok(None)
    } else if c.proto is None {
        Err(SpecError::NoProto)
    } else if declared_by(c.proto->Some_0.parts@) is None {
        Err(SpecError::MalformedCommand)
    } else if c.param is None {
        Err(SpecError::NoParams)
    } else if params_of(c.param->Some_0@) is None {
        Err(SpecError::MalformedCommand)
    } else {
        let cmd = Callable {
            proto: declared_by(c.proto->Some_0.parts@)->Some_0,
            params: params_of(c.param->Some_0@)->Some_0,
        };
        if parent_is_known(cmd, parent_of) {
            Ok(accepted(cmd, parent_of))
        } else {
            Err(SpecError::MissingParent)
        }
    }
}

/// `list` with what each command adds to it.
pub open spec fn with_creations(
    list: Seq<Creation>,
    commands: Seq<spec::Command>,
    parent_of: Names,
) -> Result<Seq<Creation>, SpecError>
    decreases commands.len(),
{
    if commands.len() == 0 {
        Ok(list)
    } else {
        match with_creations(list, commands.drop_last(), parent_of) {
            Err(e) => Err(e),
            Ok(l) => match creation_by(commands.last(), parent_of) {
                Err(e) => Err(e),
                Ok(None) => Ok(l),
                Ok(Some(c)) => Ok(l.push(c)),
            },
        }
    }
}

/// The creating commands in their order.
pub open spec fn creation_list(sections: Seq<Section>, parent_of: Names) -> Result<
    Seq<Creation>,
    SpecError,
>
    decreases sections.len(),
{
    if sections.len() == 0 {
        Ok(Seq::empty())
    } else {
        match creation_list(sections.drop_last(), parent_of) {
            Err(e) => Err(e),
            Ok(l) => match sections.last() {
                Section::Commands { command } => with_creations(l, command@, parent_of),
                _ => Ok(l),
            },
        }
    }
}

/// No other member of `list` creates a handle of the same type.
pub open spec fn creates_alone(list: Seq<Creation>, i: int) -> bool {
    forall|j: int|
        0 <= j < list.len() && j != i ==> (#[trigger] list[j]).out_handle_ty
            != list[i].out_handle_ty
}

/// The members of the first `n` of `list` that are the only ones to create their handle.
pub open spec fn sole_creations(list: Seq<Creation>, n: int) -> Seq<Creation>
    decreases n,
{
    if n <= 0 {
        Seq::empty()
    } else if creates_alone(list, n - 1) {
        sole_creations(list, n - 1).push(list[n - 1])
    } else {
        sole_creations(list, n - 1)
    }
}

/// `map` with an entry to the command that each of `commands` is another name for.
pub open spec fn with_aliases(map: Names, commands: Seq<spec::Command>) -> Names
    decreases commands.len(),
{
    if commands.len() == 0 {
        map
    } else {
        let before = with_aliases(map, commands.drop_last());
        match (commands.last().spec_name(), commands.last().alias) {
            (Some(name), Some(alias)) => before.insert(name, alias@),
            _ => before,
        }
    }
}

/// The command that each other name stands for.
pub open spec fn alias_table(sections: Seq<Section>) -> Names
    decreases sections.len(),
{
    if sections.len() == 0 {
        Map::empty()
    } else {
        match sections.last() {
            Section::Commands { command } => with_aliases(
                alias_table(sections.drop_last()),
                command@,
            ),
            _ => alias_table(sections.drop_last()),
        }
    }
}

/// What the macros know of OpenXR.
#[derive(Debug)]
pub struct ParsedSpec {
    /// The commands that create a handle in the only way there is.
    pub create_commands: Vec<CreateCommand>,
    /// The extension that a command belongs to.
    pub command_to_extension: TextMap,
    /// The parent type of a handle type.
    pub parent_of: TextMap,
    /// The command that another name stands for.
    pub aliases: TextMap,
}

/// The creating commands of a parsed registry.
pub open spec fn creations(commands: Seq<CreateCommand>) -> Seq<Creation> {
    commands.map_values(|c: CreateCommand| c@)
}

impl ParsedSpec {
    pub open spec fn wf(&self) -> bool {
        self.command_to_extension.wf() && self.parent_of.wf() && self.aliases.wf()
    }

    /// Which names stand for a command.
    pub open spec fn stands_for(&self, command: Seq<char>) -> spec_fn(Seq<char>) -> bool {
        |k: Seq<char>| self.aliases@[k] == command
    }

    /// The other names of a command.
    pub open spec fn other_names(&self, command: Seq<char>) -> Seq<Seq<char>> {
        self.aliases.keys().filter(self.stands_for(command))
    }

    /// The other names of a command.
    pub fn aliases_of(&self, command: &str) -> (r: Vec<String>)
        requires
            self.wf(),
        ensures
            r@.map_values(|s: String| s@) == self.other_names(command@),
    {
        let mut out: Vec<String> = Vec::new();
        let ghost keys = self.aliases.keys();
        let ghost keep = self.stands_for(command@);
        let mut i: usize = 0;
        proof {
            reveal(Seq::filter);
            assert(keys.subrange(0, 0).filter(keep) =~= Seq::empty());
            assert(out@.map_values(|s: String| s@) =~= Seq::empty());
        }
        while i < self.aliases.len()
            invariant
                self.wf(),
                i <= keys.len(),
                keys == self.aliases.keys(),
                keep == self.stands_for(command@),
                out@.map_values(|s: String| s@) == keys.subrange(0, i as int).filter(keep),
            decreases keys.len() - i,
        {
            proof {
                reveal(Seq::filter);
                assert(keys.subrange(0, i + 1).drop_last() =~= keys.subrange(0, i as int));
            }
            let (k, v) = self.aliases.entry(i);
            if str_eq(v.as_str(), command) {
                let ghost before = out@;
                out.push(k.clone());
                assert(out@.map_values(|s: String| s@) =~= before.map_values(
                    |s: String| s@,
                ).push(keys[i as int]));
            }
            i += 1;
        }
        assert(keys.subrange(0, keys.len() as int) =~= keys);
        out
    }

    /// Draws the tables from a registry.
    pub fn build(registry: &Spec) -> (r: Result<ParsedSpec, SpecError>)
        ensures
            match parent_table(registry.sections@) {
                Err(e) => r matches Err(f) && e == f,
                Ok(parents) => match creation_list(registry.sections@, parents) {
                    Err(e) => r matches Err(f) && e == f,
                    Ok(list) => r matches Ok(p) && {
                        &&& p.wf()
                        &&& p.parent_of@ == parents
                        &&& p.command_to_extension@ == extension_table(registry.sections@)
                        &&& p.aliases@ == alias_table(registry.sections@)
                        &&& creations(p.create_commands@) == sole_creations(
                            list,
                            list.len() as int,
                        )
                    },
                },
            },
    {
        let command_to_extension = read_extensions(registry.sections.as_slice());
        let parent_of = match read_parents(registry.sections.as_slice()) {
            Ok(m) => m,
            Err(e) => return Err(e),
        };
        let all = match read_creations(registry.sections.as_slice(), &parent_of) {
            Ok(m) => m,
            Err(e) => return Err(e),
        };
        let create_commands = keep_sole(all);
        let aliases = read_aliases(registry.sections.as_slice());
        Ok(ParsedSpec { create_commands, command_to_extension, parent_of, aliases })
    }
}

fn add_commands(map: &mut TextMap, commands: &[ExtensionCommand], extension: &String)
    requires
        old(map).wf(),
    ensures
        final(map).wf(),
        final(map)@ == with_commands(old(map)@, commands@, extension@),
{
    let ghost start = map@;
    let mut i: usize = 0;
    assert(commands@.subrange(0, 0) =~= Seq::empty());
    while i < commands.len()
        invariant
            i <= commands.len(),
            map.wf(),
            map@ == with_commands(start, commands@.subrange(0, i as int), extension@),
        decreases commands.len() - i,
    {
        proof {
            assert(commands@.subrange(0, i + 1).drop_last() =~= commands@.subrange(0, i as int));
        }
        map.insert(commands[i].name.clone(), extension.clone());
        i += 1;
    }
    assert(commands@.subrange(0, commands@.len() as int) =~= commands@);
}

fn add_requires(map: &mut TextMap, list: &[ExtensionRequire], extension: &String)
    requires
        old(map).wf(),
    ensures
        final(map).wf(),
        final(map)@ == with_requires(old(map)@, list@, extension@),
{
    let ghost start = map@;
    let mut i: usize = 0;
    assert(list@.subrange(0, 0) =~= Seq::empty());
    while i < list.len()
        invariant
            i <= list.len(),
            map.wf(),
            map@ == with_requires(start, list@.subrange(0, i as int), extension@),
        decreases list.len() - i,
    {
        proof {
            assert(list@.subrange(0, i + 1).drop_last() =~= list@.subrange(0, i as int));
        }
        add_commands(map, list[i].command.as_slice(), extension);
        i += 1;
    }
    assert(list@.subrange(0, list@.len() as int) =~= list@);
}

fn add_extensions(map: &mut TextMap, list: &[spec::Extension])
    requires
        old(map).wf(),
    ensures
        final(map).wf(),
        final(map)@ == with_extensions(old(map)@, list@),
{
    let ghost start = map@;
    let mut i: usize = 0;
    assert(list@.subrange(0, 0) =~= Seq::empty());
    while i < list.len()
        invariant
            i <= list.len(),
            map.wf(),
            map@ == with_extensions(start, list@.subrange(0, i as int)),
        decreases list.len() - i,
    {
        proof {
            assert(list@.subrange(0, i + 1).drop_last() =~= list@.subrange(0, i as int));
        }
        add_requires(map, list[i].require.as_slice(), &list[i].name);
        i += 1;
    }
    assert(list@.subrange(0, list@.len() as int) =~= list@);
}

/// Which extension each command belongs to.
fn read_extensions(sections: &[Section]) -> (r: TextMap)
    ensures
        r.wf(),
        r@ == extension_table(sections@),
{
    let mut map = TextMap::new();
    let mut i: usize = 0;
    assert(sections@.subrange(0, 0) =~= Seq::empty());
    while i < sections.len()
        invariant
            i <= sections.len(),
            map.wf(),
            map@ == extension_table(sections@.subrange(0, i as int)),
        decreases sections.len() - i,
    {
        proof {
            assert(sections@.subrange(0, i + 1).drop_last() =~= sections@.subrange(0, i as int));
        }
        match &sections[i] {
            Section::Extensions { extension } => add_extensions(&mut map, extension.as_slice()),
            _ => (),
        }
        i += 1;
    }
    assert(sections@.subrange(0, sections@.len() as int) =~= sections@);
    map
}

/// An earlier error stays.
proof fn lemma_with_parents_err(map: Names, types: Seq<spec::Type>, i: int)
    requires
        0 <= i <= types.len(),
        with_parents(map, types.subrange(0, i)) is Err,
    ensures
        with_parents(map, types) == with_parents(map, types.subrange(0, i)),
    decreases types.len() - i,
{
    if i < types.len() {
        assert(types.subrange(0, i + 1).drop_last() =~= types.subrange(0, i));
        lemma_with_parents_err(map, types, i + 1);
    } else {
        assert(types.subrange(0, i) =~= types);
    }
}

fn add_parents(map: &mut TextMap, types: &[spec::Type]) -> (r: Result<(), SpecError>)
    requires
        old(map).wf(),
    ensures
        final(map).wf(),
        match with_parents(old(map)@, types@) {
            Ok(m) => r is Ok && final(map)@ == m,
            Err(e) => r matches Err(f) && e == f,
        },
{
    let ghost start = map@;
    let mut i: usize = 0;
    assert(types@.subrange(0, 0) =~= Seq::empty());
    while i < types.len()
        invariant
            i <= types.len(),
            map.wf(),
            start == old(map)@,
            with_parents(start, types@.subrange(0, i as int)) == Ok::<_, SpecError>(map@),
        decreases types.len() - i,
    {
        proof {
            assert(types@.subrange(0, i + 1).drop_last() =~= types@.subrange(0, i as int));
        }
        let t = &types[i];
        let name = t.find_name();
        let is_instance = match name {
            Some(name) => str_eq(name.as_str(), "XrInstance"),
            None => false,
        };
        let is_handle = match &t.category {
            Some(category) => str_eq(category.as_str(), "handle"),
            None => false,
        };
        assert(is_child_handle(*t) == (!is_instance && is_handle));
        if !is_instance && is_handle {
            match name {
                None => {
                    proof {
                        lemma_with_parents_err(start, types@, i + 1);
                    }
                    return Err(SpecError::HandleWithoutName);
                },
                Some(name) => match &t.parent {
                    None => {
                        proof {
                            lemma_with_parents_err(start, types@, i + 1);
                        }
                        return Err(SpecError::HandleWithoutParent);
                    },
                    Some(parent) => {
                        map.insert(name.clone(), parent.clone());
                    },
                },
            }
        }
        i += 1;
    }
    assert(types@.subrange(0, types@.len() as int) =~= types@);
    Ok(())
}

proof fn lemma_parent_table_err(sections: Seq<Section>, i: int)
    requires
        0 <= i <= sections.len(),
        parent_table(sections.subrange(0, i)) is Err,
    ensures
        parent_table(sections) == parent_table(sections.subrange(0, i)),
    decreases sections.len() - i,
{
    if i < sections.len() {
        assert(sections.subrange(0, i + 1).drop_last() =~= sections.subrange(0, i));
        lemma_parent_table_err(sections, i + 1);
    } else {
        assert(sections.subrange(0, i) =~= sections);
    }
}

/// The parent of each handle type.
fn read_parents(sections: &[Section]) -> (r: Result<TextMap, SpecError>)
    ensures
        match parent_table(sections@) {
            Ok(m) => r matches Ok(map) && map.wf() && map@ == m,
            Err(e) => r matches Err(f) && e == f,
        },
{
    let mut map = TextMap::new();
    let mut i: usize = 0;
    assert(sections@.subrange(0, 0) =~= Seq::empty());
    while i < sections.len()
        invariant
            i <= sections.len(),
            map.wf(),
            parent_table(sections@.subrange(0, i as int)) == Ok::<_, SpecError>(map@),
        decreases sections.len() - i,
    {
        proof {
            assert(sections@.subrange(0, i + 1).drop_last() =~= sections@.subrange(0, i as int));
        }
        match &sections[i] {
            Section::Types { types } => match add_parents(&mut map, types.as_slice()) {
                Ok(_) => (),
                Err(e) => {
                    proof {
                        lemma_parent_table_err(sections@, i + 1);
                    }
                    return Err(e);
                },
            },
            _ => (),
        }
        i += 1;
    }
    assert(sections@.subrange(0, sections@.len() as int) =~= sections@);
    Ok(map)
}

proof fn lemma_params_none(params: Seq<spec::Signature>, i: int)
    requires
        0 <= i <= params.len(),
        params_of(params.subrange(0, i)) is None,
    ensures
        params_of(params) is None,
    decreases params.len() - i,
{
    if i < params.len() {
        assert(params.subrange(0, i + 1).drop_last() =~= params.subrange(0, i));
        lemma_params_none(params, i + 1);
    } else {
        assert(params.subrange(0, i) =~= params);
    }
}

/// Reads the parameters of a command.
fn read_params(params: &[spec::Signature]) -> (r: Option<Vec<Signature>>)
    ensures
        match r {
            Some(v) => params_of(params@) == Some(declarations(v@)),
            None => params_of(params@) is None,
        },
{
    let mut out: Vec<Signature> = Vec::new();
    let mut i: usize = 0;
    proof {
        assert(params@.subrange(0, 0) =~= Seq::empty());
        assert(declarations(out@) =~= Seq::empty());
    }
    while i < params.len()
        invariant
            i <= params.len(),
            params_of(params@.subrange(0, i as int)) == Some(declarations(out@)),
        decreases params.len() - i,
    {
        proof {
            assert(params@.subrange(0, i + 1).drop_last() =~= params@.subrange(0, i as int));
        }
        let ghost before = out@;
        match Signature::from_parts(params[i].parts.as_slice()) {
            Some(s) => {
                out.push(s);
                assert(declarations(out@) =~= declarations(before).push(s@));
            },
            None => {
                proof {
                    lemma_params_none(params@, i + 1);
                }
                return None;
            },
        }
        i += 1;
    }
    assert(params@.subrange(0, params@.len() as int) =~= params@);
    Some(out)
}

/// What one command of the registry adds to the creating commands.
fn read_creation(c: &spec::Command, parent_of: &TextMap) -> (r: Result<
    Option<CreateCommand>,
    SpecError,
>)
    requires
        parent_of.wf(),
    ensures
        match creation_by(*c, parent_of@) {
            Ok(creation) => r matches Ok(cmd) && opt_creation(cmd) == creation,
            Err(e) => r matches Err(f) && e == f,
        },
{
    let name = match c.find_name() {
        Some(name) => name,
        None => return Err(SpecError::MalformedCommand),
    };
    if !starts_with(name.as_str(), "xrCreate") || str_eq(name.as_str(), "xrCreateSceneMSFT")
        || str_eq(name.as_str(), "xrCreateSceneObserverMSFT") || c.alias.is_some() {
        return Ok(None);
    }
    let proto = match &c.proto {
        Some(proto) => match Signature::from_parts(proto.parts.as_slice()) {
            Some(proto) => proto,
            None => return Err(SpecError::MalformedCommand),
        },
        None => return Err(SpecError::NoProto),
    };
    let params = match &c.param {
        Some(param) => match read_params(param.as_slice()) {
            Some(params) => params,
            None => return Err(SpecError::MalformedCommand),
        },
        None => return Err(SpecError::NoParams),
    };
    let cmd = Command { proto, params };
    if !str_eq(cmd.proto.name.as_str(), "xrCreateApiLayerInstance") {
        match creation_form(&cmd) {
            Some(form) => if !parent_of.contains_key(form.out_handle_ty.as_str()) {
                return Err(SpecError::MissingParent);
            },
            None => (),
        }
    }
    Ok(check_signature(&cmd, parent_of))
}

proof fn lemma_with_creations_err(
    list: Seq<Creation>,
    commands: Seq<spec::Command>,
    parent_of: Names,
    i: int,
)
    requires
        0 <= i <= commands.len(),
        with_creations(list, commands.subrange(0, i), parent_of) is Err,
    ensures
        with_creations(list, commands, parent_of) == with_creations(
            list,
            commands.subrange(0, i),
            parent_of,
        ),
    decreases commands.len() - i,
{
    if i < commands.len() {
        assert(commands.subrange(0, i + 1).drop_last() =~= commands.subrange(0, i));
        lemma_with_creations_err(list, commands, parent_of, i + 1);
    } else {
        assert(commands.subrange(0, i) =~= commands);
    }
}

fn add_creations(
    list: &mut Vec<CreateCommand>,
    commands: &[spec::Command],
    parent_of: &TextMap,
) -> (r: Result<(), SpecError>)
    requires
        parent_of.wf(),
    ensures
        match with_creations(creations(old(list)@), commands@, parent_of@) {
            Ok(l) => r is Ok && creations(final(list)@) == l,
            Err(e) => r matches Err(f) && e == f,
        },
{
    let ghost start = creations(list@);
    let mut i: usize = 0;
    assert(commands@.subrange(0, 0) =~= Seq::empty());
    while i < commands.len()
        invariant
            i <= commands.len(),
            parent_of.wf(),
            start == creations(old(list)@),
            with_creations(start, commands@.subrange(0, i as int), parent_of@) == Ok::<
                _,
                SpecError,
            >(creations(list@)),
        decreases commands.len() - i,
    {
        proof {
            assert(commands@.subrange(0, i + 1).drop_last() =~= commands@.subrange(0, i as int));
        }
        match read_creation(&commands[i], parent_of) {
            Ok(Some(cmd)) => {
                let ghost before = list@;
                list.push(cmd);
                assert(creations(list@) =~= creations(before).push(cmd@));
            },
            Ok(None) => (),
            Err(e) => {
                proof {
                    lemma_with_creations_err(start, commands@, parent_of@, i + 1);
                }
                return Err(e);
            },
        }
        i += 1;
    }
    assert(commands@.subrange(0, commands@.len() as int) =~= commands@);
    Ok(())
}

proof fn lemma_creation_list_err(sections: Seq<Section>, parent_of: Names, i: int)
    requires
        0 <= i <= sections.len(),
        creation_list(sections.subrange(0, i), parent_of) is Err,
    ensures
        creation_list(sections, parent_of) == creation_list(sections.subrange(0, i), parent_of),
    decreases sections.len() - i,
{
    if i < sections.len() {
        assert(sections.subrange(0, i + 1).drop_last() =~= sections.subrange(0, i));
        lemma_creation_list_err(sections, parent_of, i + 1);
    } else {
        assert(sections.subrange(0, i) =~= sections);
    }
}

/// The creating commands of all sections.
fn read_creations(sections: &[Section], parent_of: &TextMap) -> (r: Result<
    Vec<CreateCommand>,
    SpecError,
>)
    requires
        parent_of.wf(),
    ensures
        match creation_list(sections@, parent_of@) {
            Ok(l) => r matches Ok(v) && creations(v@) == l,
            Err(e) => r matches Err(f) && e == f,
        },
{
    let mut list: Vec<CreateCommand> = Vec::new();
    let mut i: usize = 0;
    proof {
        assert(sections@.subrange(0, 0) =~= Seq::empty());
        assert(creations(list@) =~= Seq::empty());
    }
    while i < sections.len()
        invariant
            i <= sections.len(),
            parent_of.wf(),
            creation_list(sections@.subrange(0, i as int), parent_of@) == Ok::<_, SpecError>(
                creations(list@),
            ),
        decreases sections.len() - i,
    {
        proof {
            assert(sections@.subrange(0, i + 1).drop_last() =~= sections@.subrange(0, i as int));
        }
        match &sections[i] {
            Section::Commands { command } => match add_creations(
                &mut list,
                command.as_slice(),
                parent_of,
            ) {
                Ok(_) => (),
                Err(e) => {
                    proof {
                        lemma_creation_list_err(sections@, parent_of@, i + 1);
                    }
                    return Err(e);
                },
            },
            _ => (),
        }
        i += 1;
    }
    assert(sections@.subrange(0, sections@.len() as int) =~= sections@);
    Ok(list)
}

/// Whether no other command creates a handle of the same type.
fn is_sole(list: &[CreateCommand], i: usize) -> (r: bool)
    requires
        i < list@.len(),
    ensures
        r == creates_alone(creations(list@), i as int),
{
    let ghost all = creations(list@);
    let mut j: usize = 0;
    while j < list.len()
        invariant
            i < list@.len(),
            j <= list.len(),
            all == creations(list@),
            forall|k: int|
                0 <= k < j && k != i ==> (#[trigger] all[k]).out_handle_ty
                    != all[i as int].out_handle_ty,
        decreases list.len() - j,
    {
        if j != i && str_eq(list[j].out_handle_ty.as_str(), list[i].out_handle_ty.as_str()) {
            assert(all[j as int].out_handle_ty == all[i as int].out_handle_ty);
            return false;
        }
        j += 1;
    }
    true
}

/// Drops the commands whose handle can be created in more than one way.
fn keep_sole(list: Vec<CreateCommand>) -> (r: Vec<CreateCommand>)
    ensures
        creations(r@) == sole_creations(creations(list@), list@.len() as int),
{
    let ghost all = creations(list@);
    let mut out: Vec<CreateCommand> = Vec::new();
    let mut i: usize = 0;
    assert(creations(out@) =~= Seq::empty());
    while i < list.len()
        invariant
            i <= list.len(),
            all == creations(list@),
            creations(out@) == sole_creations(all, i as int),
        decreases list.len() - i,
    {
        if is_sole(list.as_slice(), i) {
            let ghost before = out@;
            let c = &list[i];
            out.push(
                CreateCommand {
                    name: c.name.clone(),
                    parent_ty: c.parent_ty.clone(),
                    create_info_ty: c.create_info_ty.clone(),
                    out_handle_ty: c.out_handle_ty.clone(),
                },
            );
            assert(creations(out@) =~= creations(before).push(all[i as int]));
        }
        i += 1;
    }
    out
}

fn add_aliases(map: &mut TextMap, commands: &[spec::Command])
    requires
        old(map).wf(),
    ensures
        final(map).wf(),
        final(map)@ == with_aliases(old(map)@, commands@),
{
    let ghost start = map@;
    let mut i: usize = 0;
    assert(commands@.subrange(0, 0) =~= Seq::empty());
    while i < commands.len()
        invariant
            i <= commands.len(),
            map.wf(),
            map@ == with_aliases(start, commands@.subrange(0, i as int)),
        decreases commands.len() - i,
    {
        proof {
            assert(commands@.subrange(0, i + 1).drop_last() =~= commands@.subrange(0, i as int));
        }
        match (commands[i].find_name(), &commands[i].alias) {
            (Some(name), Some(alias)) => {
                map.insert(name.clone(), alias.clone());
            },
            _ => (),
        }
        i += 1;
    }
    assert(commands@.subrange(0, commands@.len() as int) =~= commands@);
}

/// Which command each other name stands for.
fn read_aliases(sections: &[Section]) -> (r: TextMap)
    ensures
        r.wf(),
        r@ == alias_table(sections@),
{
    let mut map = TextMap::new();
    let mut i: usize = 0;
    assert(sections@.subrange(0, 0) =~= Seq::empty());
    while i < sections.len()
        invariant
            i <= sections.len(),
            map.wf(),
            map@ == alias_table(sections@.subrange(0, i as int)),
        decreases sections.len() - i,
    {
        proof {
            assert(sections@.subrange(0, i + 1).drop_last() =~= sections@.subrange(0, i as int));
        }
        match &sections[i] {
            Section::Commands { command } => add_aliases(&mut map, command.as_slice()),
            _ => (),
        }
        i += 1;
    }
    assert(sections@.subrange(0, sections@.len() as int) =~= sections@);
    map
}

proof fn lemma_sole_comes_from(list: Seq<Creation>, n: int, k: int) -> (i: int)
    requires
        0 <= n <= list.len(),
        0 <= k < sole_creations(list, n).len(),
    ensures
        0 <= i < n,
        creates_alone(list, i),
        sole_creations(list, n)[k] == list[i],
    decreases n,
{
    let before = sole_creations(list, n - 1);
    if k < before.len() {
        lemma_sole_comes_from(list, n - 1, k)
    } else {
        n - 1
    }
}

proof fn lemma_sole_complete(list: Seq<Creation>, n: int, i: int)
    requires
        0 <= i < n <= list.len(),
        creates_alone(list, i),
    ensures
        sole_creations(list, n).contains(list[i]),
    decreases n,
{
    let before = sole_creations(list, n - 1);
    if i < n - 1 {
        lemma_sole_complete(list, n - 1, i);
        let k = choose|k: int| 0 <= k < before.len() && before[k] == list[i];
        assert(sole_creations(list, n)[k] == list[i]);
    } else {
        assert(sole_creations(list, n)[before.len() as int] == list[i]);
    }
}

/// A command is kept exactly if it is the only one that creates its handle.
pub proof fn law_kept_commands_create_alone(list: Seq<Creation>, c: Creation)
    ensures
        sole_creations(list, list.len() as int).contains(c) <==> exists|i: int|
            0 <= i < list.len() && #[trigger] list[i] == c && creates_alone(list, i),
{
    let kept = sole_creations(list, list.len() as int);
    if kept.contains(c) {
        let k = choose|k: int| 0 <= k < kept.len() && kept[k] == c;
        let i = lemma_sole_comes_from(list, list.len() as int, k);
        assert(list[i] == c);
    }
    if exists|i: int| 0 <= i < list.len() && #[trigger] list[i] == c && creates_alone(list, i) {
        let i = choose|i: int|
            0 <= i < list.len() && #[trigger] list[i] == c && creates_alone(list, i);
        lemma_sole_complete(list, list.len() as int, i);
    }
}

/// The extension at place `e` of section `s`.
pub open spec fn extension_at(sections: Seq<Section>, s: int, e: int) -> Option<spec::Extension> {
    if 0 <= s < sections.len() {
        match sections[s] {
            Section::Extensions { extension } => if 0 <= e < extension@.len() {
                Some(extension@[e])
            } else {
                None
            },
            _ => None,
        }
    } else {
        None
    }
}

/// Some command of some block that the extension requires has this name.
pub open spec fn demands(extension: spec::Extension, name: Seq<char>) -> bool {
    exists|b: int, c: int|
        0 <= b < extension.require@.len() && 0 <= c < extension.require@[b].command@.len()
            && #[trigger] extension.require@[b].command@[c].name@ == name
}

/// The extension at place `e` of section `s` requires a command of this name.
pub open spec fn demanded_at(sections: Seq<Section>, s: int, e: int, name: Seq<char>) -> bool {
    extension_at(sections, s, e) matches Some(x) && demands(x, name)
}

proof fn lemma_with_commands(map: Names, commands: Seq<ExtensionCommand>, ext: Seq<char>, name: Seq<char>)
    ensures
        ({
            let after = with_commands(map, commands, ext);
            let listed = exists|c: int|
                0 <= c < commands.len() && #[trigger] commands[c].name@ == name;
            &&& after.contains_key(name) <==> map.contains_key(name) || listed
            &&& listed ==> after[name] == ext
            &&& !listed ==> after[name] == map[name]
        }),
    decreases commands.len(),
{
    if commands.len() > 0 {
        let short = commands.drop_last();
        lemma_with_commands(map, short, ext, name);
        assert(commands.last() == commands[commands.len() - 1]);
        if exists|c: int| 0 <= c < short.len() && #[trigger] short[c].name@ == name {
            let c = choose|c: int| 0 <= c < short.len() && #[trigger] short[c].name@ == name;
            assert(commands[c].name@ == name);
        }
        if exists|c: int| 0 <= c < commands.len() && #[trigger] commands[c].name@ == name {
            let c = choose|c: int| 0 <= c < commands.len() && #[trigger] commands[c].name@ == name;
            if c < short.len() {
                assert(short[c].name@ == name);
            }
        }
    }
}

proof fn lemma_with_requires(
    map: Names,
    blocks: Seq<ExtensionRequire>,
    ext: Seq<char>,
    name: Seq<char>,
)
    ensures
        ({
            let after = with_requires(map, blocks, ext);
            let listed = exists|b: int, c: int|
                0 <= b < blocks.len() && 0 <= c < blocks[b].command@.len()
                    && #[trigger] blocks[b].command@[c].name@ == name;
            &&& after.contains_key(name) <==> map.contains_key(name) || listed
            &&& listed ==> after[name] == ext
            &&& !listed ==> after[name] == map[name]
        }),
    decreases blocks.len(),
{
    if blocks.len() > 0 {
        let short = blocks.drop_last();
        let last = blocks.last();
        lemma_with_requires(map, short, ext, name);
        lemma_with_commands(with_requires(map, short, ext), last.command@, ext, name);
        assert(last == blocks[blocks.len() - 1]);
        if exists|b: int, c: int|
            0 <= b < short.len() && 0 <= c < short[b].command@.len()
                && #[trigger] short[b].command@[c].name@ == name {
            let (b, c) = choose|b: int, c: int|
                0 <= b < short.len() && 0 <= c < short[b].command@.len()
                    && #[trigger] short[b].command@[c].name@ == name;
            assert(blocks[b].command@[c].name@ == name);
        }
        if exists|c: int| 0 <= c < last.command@.len() && #[trigger] last.command@[c].name@ == name {
            let c = choose|c: int|
                0 <= c < last.command@.len() && #[trigger] last.command@[c].name@ == name;
            assert(blocks[blocks.len() - 1].command@[c].name@ == name);
        }
        if exists|b: int, c: int|
            0 <= b < blocks.len() && 0 <= c < blocks[b].command@.len()
                && #[trigger] blocks[b].command@[c].name@ == name {
            let (b, c) = choose|b: int, c: int|
                0 <= b < blocks.len() && 0 <= c < blocks[b].command@.len()
                    && #[trigger] blocks[b].command@[c].name@ == name;
            if b < short.len() {
                assert(short[b].command@[c].name@ == name);
            } else {
                assert(last.command@[c].name@ == name);
            }
        }
    }
}

proof fn lemma_with_extensions(map: Names, list: Seq<spec::Extension>, name: Seq<char>)
    ensures
        ({
            let after = with_extensions(map, list);
            let listed = exists|e: int| 0 <= e < list.len() && #[trigger] demands(list[e], name);
            &&& after.contains_key(name) <==> map.contains_key(name) || listed
            &&& listed ==> exists|e: int|
                0 <= e < list.len() && #[trigger] demands(list[e], name) && after[name]
                    == list[e].name@ && forall|f: int|
                    e < f < list.len() ==> !#[trigger] demands(list[f], name)
            &&& !listed ==> after[name] == map[name]
        }),
    decreases list.len(),
{
    if list.len() > 0 {
        let short = list.drop_last();
        let last = list.last();
        let before = with_extensions(map, short);
        lemma_with_extensions(map, short, name);
        lemma_with_requires(before, last.require@, last.name@, name);
        assert(last == list[list.len() - 1]);
        assert forall|e: int| 0 <= e < short.len() implies #[trigger] list[e] == short[e] by {}
        if demands(last, name) {
            assert(demands(list[list.len() - 1], name));
        } else if exists|e: int| 0 <= e < short.len() && #[trigger] demands(short[e], name) {
            let e = choose|e: int|
                0 <= e < short.len() && #[trigger] demands(short[e], name) && before[name]
                    == short[e].name@ && forall|f: int|
                    e < f < short.len() ==> !#[trigger] demands(short[f], name);
            assert(demands(list[e], name));
            assert forall|f: int| e < f < list.len() implies !#[trigger] demands(list[f], name) by {
                if f < short.len() {
                    assert(!demands(short[f], name));
                }
            }
        }
        if exists|e: int| 0 <= e < list.len() && #[trigger] demands(list[e], name) {
            let e = choose|e: int| 0 <= e < list.len() && #[trigger] demands(list[e], name);
            if e < short.len() {
                assert(demands(short[e], name));
            }
        }
    }
}

/// A command is in the table exactly if some extension requires one of its name, in whatever
/// section, block and place it stands. The table then names an extension that requires it, the
/// last of them; so if there is only one, it names that one.
pub proof fn law_commands_belong_to_extensions(sections: Seq<Section>, name: Seq<char>)
    ensures
        forall|s: int, e: int, b: int, c: int|
            extension_at(sections, s, e) matches Some(x) && 0 <= b < x.require@.len() && 0 <= c
                < x.require@[b].command@.len() && #[trigger] extension_at(
                sections,
                s,
                e,
            )->Some_0.require@[b].command@[c].name@ == name ==> extension_table(
                sections,
            ).contains_key(name),
        extension_table(sections).contains_key(name) ==> exists|s: int, e: int| #[trigger]
            demanded_at(sections, s, e, name) && extension_table(sections)[name] == extension_at(
                sections,
                s,
                e,
            )->Some_0.name@ && forall|t: int, f: int| #[trigger]
                demanded_at(sections, t, f, name) ==> t < s || (t == s && f <= e),
        forall|s: int, e: int|
            #[trigger] demanded_at(sections, s, e, name) && (forall|t: int, f: int| #[trigger]
                demanded_at(sections, t, f, name) ==> t == s && f == e) ==> extension_table(
                sections,
            )[name] == extension_at(sections, s, e)->Some_0.name@,
{
    lemma_extension_table(sections, name);
    assert forall|s: int, e: int, b: int, c: int|
        extension_at(sections, s, e) matches Some(x) && 0 <= b < x.require@.len() && 0 <= c
            < x.require@[b].command@.len() && #[trigger] extension_at(
            sections,
            s,
            e,
        )->Some_0.require@[b].command@[c].name@ == name implies extension_table(
        sections,
    ).contains_key(name) by {
        assert(demanded_at(sections, s, e, name));
    }
}

proof fn lemma_extension_table(sections: Seq<Section>, name: Seq<char>)
    ensures
        ({
            let table = extension_table(sections);
            &&& forall|s: int, e: int| #[trigger]
                demanded_at(sections, s, e, name) ==> table.contains_key(name)
            &&& table.contains_key(name) ==> exists|s: int, e: int| #[trigger]
                demanded_at(sections, s, e, name) && table[name] == extension_at(
                    sections,
                    s,
                    e,
                )->Some_0.name@ && forall|t: int, f: int| #[trigger]
                    demanded_at(sections, t, f, name) ==> t < s || (t == s && f <= e)
        }),
    decreases sections.len(),
{
    if sections.len() > 0 {
        let short = sections.drop_last();
        let n = sections.len() - 1;
        let before = extension_table(short);
        let table = extension_table(sections);
        lemma_extension_table(short, name);
        assert(sections.last() == sections[n]);
        assert forall|s: int, e: int| s != n implies #[trigger] demanded_at(sections, s, e, name)
            == demanded_at(short, s, e, name) by {
            if 0 <= s < n {
                assert(short[s] == sections[s]);
            }
        }
        match sections.last() {
            Section::Extensions { extension } => {
                let list = extension@;
                lemma_with_extensions(before, list, name);
                if exists|e: int| 0 <= e < list.len() && #[trigger] demands(list[e], name) {
                    let e = choose|e: int|
                        0 <= e < list.len() && #[trigger] demands(list[e], name) && table[name]
                            == list[e].name@ && forall|f: int|
                            e < f < list.len() ==> !#[trigger] demands(list[f], name);
                    assert(demanded_at(sections, n, e, name));
                    assert forall|t: int, f: int| #[trigger]
                        demanded_at(sections, t, f, name) implies t < n || (t == n && f <= e) by {
                        if t == n && f > e {
                            assert(!demands(list[f], name));
                        }
                    }
                } else {
                    assert forall|e: int| !#[trigger] demanded_at(sections, n, e, name) by {
                        if 0 <= e < list.len() {
                            assert(!demands(list[e], name));
                        }
                    }
                    lemma_extension_table_keeps(sections, name);
                }
            },
            _ => {
                lemma_extension_table_keeps(sections, name);
            },
        }
    }
}

/// What the sections before the last say of a name stands if the last says nothing of it.
proof fn lemma_extension_table_keeps(sections: Seq<Section>, name: Seq<char>)
    requires
        sections.len() > 0,
        forall|e: int| !#[trigger] demanded_at(sections, sections.len() - 1, e, name),
        ({
            let short = sections.drop_last();
            let table = extension_table(short);
            &&& forall|s: int, e: int| #[trigger]
                demanded_at(short, s, e, name) ==> table.contains_key(name)
            &&& table.contains_key(name) ==> exists|s: int, e: int| #[trigger]
                demanded_at(short, s, e, name) && table[name] == extension_at(
                    short,
                    s,
                    e,
                )->Some_0.name@ && forall|t: int, f: int| #[trigger]
                    demanded_at(short, t, f, name) ==> t < s || (t == s && f <= e)
        }),
        extension_table(sections).contains_key(name) == extension_table(
            sections.drop_last(),
        ).contains_key(name),
        extension_table(sections)[name] == extension_table(sections.drop_last())[name],
    ensures
        ({
            let table = extension_table(sections);
            &&& forall|s: int, e: int| #[trigger]
                demanded_at(sections, s, e, name) ==> table.contains_key(name)
            &&& table.contains_key(name) ==> exists|s: int, e: int| #[trigger]
                demanded_at(sections, s, e, name) && table[name] == extension_at(
                    sections,
                    s,
                    e,
                )->Some_0.name@ && forall|t: int, f: int| #[trigger]
                    demanded_at(sections, t, f, name) ==> t < s || (t == s && f <= e)
        }),
{
    let short = sections.drop_last();
    let n = sections.len() - 1;
    let table = extension_table(short);
    assert forall|s: int, e: int| #[trigger] demanded_at(sections, s, e, name) == demanded_at(
        short,
        s,
        e,
        name,
    ) by {
        if 0 <= s < n {
            assert(short[s] == sections[s]);
        }
    }
    if table.contains_key(name) {
        let (s, e) = choose|s: int, e: int| #[trigger]
            demanded_at(short, s, e, name) && table[name] == extension_at(
                short,
                s,
                e,
            )->Some_0.name@ && forall|t: int, f: int| #[trigger]
                demanded_at(short, t, f, name) ==> t < s || (t == s && f <= e);
        assert(demanded_at(sections, s, e, name));
        assert(short[s] == sections[s]);
        assert(extension_at(sections, s, e) == extension_at(short, s, e));
        assert forall|t: int, f: int| #[trigger] demanded_at(sections, t, f, name) implies t < s
            || (t == s && f <= e) by {
            assert(demanded_at(short, t, f, name));
        }
    }
}

/// All types of a registry, in their order.
pub open spec fn types_in(sections: Seq<Section>) -> Seq<spec::Type>
    decreases sections.len(),
{
    if sections.len() == 0 {
        Seq::empty()
    } else {
        types_in(sections.drop_last()) + (match sections.last() {
            Section::Types { types } => types@,
            _ => Seq::empty(),
        })
    }
}

/// All commands of a registry, in their order.
pub open spec fn commands_in(sections: Seq<Section>) -> Seq<spec::Command>
    decreases sections.len(),
{
    if sections.len() == 0 {
        Seq::empty()
    } else {
        commands_in(sections.drop_last()) + (match sections.last() {
            Section::Commands { command } => command@,
            _ => Seq::empty(),
        })
    }
}

proof fn lemma_with_parents_concat(map: Names, a: Seq<spec::Type>, b: Seq<spec::Type>)
    ensures
        with_parents(map, a + b) == (match with_parents(map, a) {
            Err(e) => Err(e),
            Ok(m) => with_parents(m, b),
        }),
    decreases b.len(),
{
    if b.len() == 0 {
        assert(a + b =~= a);
    } else {
        lemma_with_parents_concat(map, a, b.drop_last());
        assert((a + b).drop_last() =~= a + b.drop_last());
        assert((a + b).last() == b.last());
    }
}

proof fn lemma_parent_table_flat(sections: Seq<Section>)
    ensures
        parent_table(sections) == with_parents(Map::empty(), types_in(sections)),
    decreases sections.len(),
{
    if sections.len() > 0 {
        lemma_parent_table_flat(sections.drop_last());
        let before = types_in(sections.drop_last());
        match sections.last() {
            Section::Types { types } => {
                lemma_with_parents_concat(Map::empty(), before, types@);
            },
            _ => {
                assert(before + Seq::<spec::Type>::empty() =~= before);
            },
        }
    }
}

/// A type that has to have a parent: one of the category of handles that is not the instance.
pub open spec fn wants_parent(t: spec::Type) -> bool {
    (t.category matches Some(c) && c@ == "handle"@) && type_name_in(t.parts@) != Some(
        "XrInstance"@,
    )
}

/// A handle type that lacks its name or its parent.
pub open spec fn lacks_something(t: spec::Type) -> bool {
    wants_parent(t) && (type_name_in(t.parts@) is None || t.parent is None)
}

proof fn lemma_with_parents(types: Seq<spec::Type>, name: Seq<char>)
    ensures
        match with_parents(Map::empty(), types) {
            Ok(m) => {
                &&& forall|i: int| 0 <= i < types.len() ==> !lacks_something(#[trigger] types[i])
                &&& m.contains_key(name) <==> exists|i: int|
                    0 <= i < types.len() && wants_parent(#[trigger] types[i]) && type_name_in(
                        types[i].parts@,
                    ) == Some(name)
                &&& m.contains_key(name) ==> exists|i: int|
                    0 <= i < types.len() && wants_parent(#[trigger] types[i]) && type_name_in(
                        types[i].parts@,
                    ) == Some(name) && (types[i].parent matches Some(p) && p@ == m[name])
                        && forall|j: int|
                        i < j < types.len() && wants_parent(#[trigger] types[j]) ==> type_name_in(
                            types[j].parts@,
                        ) != Some(name)
            },
            Err(e) => exists|i: int|
                0 <= i < types.len() && lacks_something(#[trigger] types[i]) && (forall|j: int|
                    0 <= j < i ==> !lacks_something(#[trigger] types[j])) && e == (
                if type_name_in(types[i].parts@) is None {
                    SpecError::HandleWithoutName
                } else {
                    SpecError::HandleWithoutParent
                }),
        },
    decreases types.len(),
{
    if types.len() > 0 {
        let short = types.drop_last();
        let t = types.last();
        let n = types.len() - 1;
        lemma_with_parents(short, name);
        assert(t == types[n]);
        assert forall|i: int| 0 <= i < n implies #[trigger] types[i] == short[i] by {}
        match with_parents(Map::empty(), short) {
            Err(e) => {
                let i = choose|i: int|
                    0 <= i < short.len() && lacks_something(#[trigger] short[i]) && (forall|j: int|
                        0 <= j < i ==> !lacks_something(#[trigger] short[j])) && e == (
                    if type_name_in(short[i].parts@) is None {
                        SpecError::HandleWithoutName
                    } else {
                        SpecError::HandleWithoutParent
                    });
                assert(lacks_something(types[i]));
                assert forall|j: int| 0 <= j < i implies !lacks_something(#[trigger] types[j]) by {
                    assert(types[j] == short[j]);
                }
            },
            Ok(m) => {
                assert forall|i: int| 0 <= i < n implies !lacks_something(#[trigger] types[i]) by {
                    assert(types[i] == short[i]);
                }
                if lacks_something(t) {
                    assert(lacks_something(types[n]));
                } else {
                    if m.contains_key(name) && !(wants_parent(t) && type_name_in(t.parts@) == Some(
                        name,
                    )) {
                        let i = choose|i: int|
                            0 <= i < short.len() && wants_parent(#[trigger] short[i])
                                && type_name_in(short[i].parts@) == Some(name) && (
                            short[i].parent matches Some(p) && p@ == m[name]) && forall|j: int|
                                i < j < short.len() && wants_parent(#[trigger] short[j])
                                    ==> type_name_in(short[j].parts@) != Some(name);
                        assert(wants_parent(types[i]));
                        assert forall|j: int|
                            i < j < types.len() && wants_parent(
                                #[trigger] types[j],
                            ) implies type_name_in(types[j].parts@) != Some(name) by {
                            if j < n {
                                assert(types[j] == short[j]);
                            }
                        }
                    }
                    if wants_parent(t) && type_name_in(t.parts@) == Some(name) {
                        assert(wants_parent(types[n]));
                    }
                    if exists|i: int|
                        0 <= i < types.len() && wants_parent(#[trigger] types[i]) && type_name_in(
                            types[i].parts@,
                        ) == Some(name) {
                        let i = choose|i: int|
                            0 <= i < types.len() && wants_parent(#[trigger] types[i])
                                && type_name_in(types[i].parts@) == Some(name);
                        if i < n {
                            assert(wants_parent(short[i]));
                        }
                    }
                }
            },
        }
    }
}

/// Every handle type but the instance has the parent that the registry gives it, and no other
/// type has one. A registry in which such a type lacks its name or its parent is refused, and the
/// first such type says for which of the two.
pub proof fn law_parents_are_read(sections: Seq<Section>, name: Seq<char>)
    ensures
        ({
            let types = types_in(sections);
            match parent_table(sections) {
                Ok(m) => {
                    &&& forall|i: int|
                        0 <= i < types.len() ==> !lacks_something(#[trigger] types[i])
                    &&& m.contains_key(name) <==> exists|i: int|
                        0 <= i < types.len() && wants_parent(#[trigger] types[i]) && type_name_in(
                            types[i].parts@,
                        ) == Some(name)
                    &&& m.contains_key(name) ==> exists|i: int|
                        0 <= i < types.len() && wants_parent(#[trigger] types[i]) && type_name_in(
                            types[i].parts@,
                        ) == Some(name) && (types[i].parent matches Some(p) && p@ == m[name])
                            && forall|j: int|
                            i < j < types.len() && wants_parent(#[trigger] types[j])
                                ==> type_name_in(types[j].parts@) != Some(name)
                },
                Err(e) => exists|i: int|
                    0 <= i < types.len() && lacks_something(#[trigger] types[i]) && (forall|j: int|
                        0 <= j < i ==> !lacks_something(#[trigger] types[j])) && e == (
                    if type_name_in(types[i].parts@) is None {
                        SpecError::HandleWithoutName
                    } else {
                        SpecError::HandleWithoutParent
                    }),
            }
        }),
{
    lemma_parent_table_flat(sections);
    lemma_with_parents(types_in(sections), name);
}

proof fn lemma_with_aliases_concat(map: Names, a: Seq<spec::Command>, b: Seq<spec::Command>)
    ensures
        with_aliases(map, a + b) == with_aliases(with_aliases(map, a), b),
    decreases b.len(),
{
    if b.len() == 0 {
        assert(a + b =~= a);
    } else {
        lemma_with_aliases_concat(map, a, b.drop_last());
        assert((a + b).drop_last() =~= a + b.drop_last());
        assert((a + b).last() == b.last());
    }
}

proof fn lemma_alias_table_flat(sections: Seq<Section>)
    ensures
        alias_table(sections) == with_aliases(Map::empty(), commands_in(sections)),
    decreases sections.len(),
{
    if sections.len() > 0 {
        lemma_alias_table_flat(sections.drop_last());
        let before = commands_in(sections.drop_last());
        match sections.last() {
            Section::Commands { command } => {
                lemma_with_aliases_concat(Map::empty(), before, command@);
            },
            _ => {
                assert(before + Seq::<spec::Command>::empty() =~= before);
            },
        }
    }
}

/// The command is another name, `name`, for a command.
pub open spec fn renames(c: spec::Command, name: Seq<char>) -> bool {
    c.alias is Some && c.spec_name() == Some(name)
}

proof fn lemma_with_aliases(commands: Seq<spec::Command>, name: Seq<char>)
    ensures
        ({
            let m = with_aliases(Map::empty(), commands);
            &&& m.contains_key(name) <==> exists|i: int|
                0 <= i < commands.len() && renames(#[trigger] commands[i], name)
            &&& m.contains_key(name) ==> exists|i: int|
                0 <= i < commands.len() && renames(#[trigger] commands[i], name) && m[name]
                    == commands[i].alias->Some_0@ && forall|j: int|
                    i < j < commands.len() ==> !renames(#[trigger] commands[j], name)
        }),
    decreases commands.len(),
{
    if commands.len() > 0 {
        let short = commands.drop_last();
        let n = commands.len() - 1;
        let before = with_aliases(Map::empty(), short);
        lemma_with_aliases(short, name);
        assert(commands.last() == commands[n]);
        assert forall|i: int| 0 <= i < n implies #[trigger] commands[i] == short[i] by {}
        if renames(commands.last(), name) {
            assert(renames(commands[n], name));
        } else if before.contains_key(name) {
            let i = choose|i: int|
                0 <= i < short.len() && renames(#[trigger] short[i], name) && before[name]
                    == short[i].alias->Some_0@ && forall|j: int|
                    i < j < short.len() ==> !renames(#[trigger] short[j], name);
            assert(renames(commands[i], name));
            assert forall|j: int| i < j < commands.len() implies !renames(
                #[trigger] commands[j],
                name,
            ) by {
                if j < n {
                    assert(!renames(short[j], name));
                }
            }
        }
        if exists|i: int| 0 <= i < commands.len() && renames(#[trigger] commands[i], name) {
            let i = choose|i: int| 0 <= i < commands.len() && renames(#[trigger] commands[i], name);
            if i < n {
                assert(renames(short[i], name));
            }
        }
    }
}

/// A name stands for another command exactly if some command of the registry says so of itself;
/// of several the last counts.
pub proof fn law_other_names_are_read(sections: Seq<Section>, name: Seq<char>)
    ensures
        ({
            let commands = commands_in(sections);
            let m = alias_table(sections);
            &&& m.contains_key(name) <==> exists|i: int|
                0 <= i < commands.len() && renames(#[trigger] commands[i], name)
            &&& m.contains_key(name) ==> exists|i: int|
                0 <= i < commands.len() && renames(#[trigger] commands[i], name) && m[name]
                    == commands[i].alias->Some_0@ && forall|j: int|
                    i < j < commands.len() ==> !renames(#[trigger] commands[j], name)
        }),
{
    lemma_alias_table_flat(sections);
    lemma_with_aliases(commands_in(sections), name);
}

proof fn lemma_with_creations_concat(
    list: Seq<Creation>,
    a: Seq<spec::Command>,
    b: Seq<spec::Command>,
    parent_of: Names,
)
    ensures
        with_creations(list, a + b, parent_of) == (match with_creations(list, a, parent_of) {
            Err(e) => Err(e),
            Ok(l) => with_creations(l, b, parent_of),
        }),
    decreases b.len(),
{
    if b.len() == 0 {
        assert(a + b =~= a);
    } else {
        lemma_with_creations_concat(list, a, b.drop_last(), parent_of);
        assert((a + b).drop_last() =~= a + b.drop_last());
        assert((a + b).last() == b.last());
    }
}

proof fn lemma_creation_list_flat(sections: Seq<Section>, parent_of: Names)
    ensures
        creation_list(sections, parent_of) == with_creations(
            Seq::empty(),
            commands_in(sections),
            parent_of,
        ),
    decreases sections.len(),
{
    if sections.len() > 0 {
        lemma_creation_list_flat(sections.drop_last(), parent_of);
        let before = commands_in(sections.drop_last());
        match sections.last() {
            Section::Commands { command } => {
                lemma_with_creations_concat(Seq::empty(), before, command@, parent_of);
            },
            _ => {
                assert(before + Seq::<spec::Command>::empty() =~= before);
            },
        }
    }
}

/// `places` are places in a list of `n`, in their order.
pub open spec fn in_order(places: Seq<int>, n: int) -> bool {
    &&& forall|k: int| 0 <= k < places.len() ==> 0 <= #[trigger] places[k] < n
    &&& forall|k: int, l: int| 0 <= k < l < places.len() ==> places[k] < places[l]
}

/// `list` is what the commands at `places` create, and no other command creates anything.
pub open spec fn created_at(
    commands: Seq<spec::Command>,
    parent_of: Names,
    list: Seq<Creation>,
    places: Seq<int>,
) -> bool {
    &&& in_order(places, commands.len() as int)
    &&& places.len() == list.len()
    &&& forall|k: int|
        0 <= k < places.len() ==> creation_by(commands[#[trigger] places[k]], parent_of) == Ok::<
            _,
            SpecError,
        >(Some(list[k]))
    &&& forall|i: int|
        0 <= i < commands.len() && !places.contains(i) ==> creation_by(
            #[trigger] commands[i],
            parent_of,
        ) == Ok::<Option<Creation>, SpecError>(None)
}

/// `list` is what the commands create, in their order.
pub open spec fn listed_from(
    commands: Seq<spec::Command>,
    parent_of: Names,
    list: Seq<Creation>,
) -> bool {
    exists|places: Seq<int>| #[trigger] created_at(commands, parent_of, list, places)
}

/// The command at `i` cannot be used, and it is the first.
pub open spec fn first_unusable(
    commands: Seq<spec::Command>,
    parent_of: Names,
    i: int,
    e: SpecError,
) -> bool {
    &&& 0 <= i < commands.len()
    &&& creation_by(commands[i], parent_of) == Err::<Option<Creation>, _>(e)
    &&& forall|j: int| 0 <= j < i ==> creation_by(#[trigger] commands[j], parent_of) is Ok
}

proof fn lemma_with_creations(commands: Seq<spec::Command>, parent_of: Names)
    ensures
        match with_creations(Seq::empty(), commands, parent_of) {
            Ok(list) => listed_from(commands, parent_of, list),
            Err(e) => exists|i: int| #[trigger] first_unusable(commands, parent_of, i, e),
        },
    decreases commands.len(),
{
    if commands.len() == 0 {
        assert(with_creations(Seq::empty(), commands, parent_of) == Ok::<_, SpecError>(
            Seq::<Creation>::empty(),
        ));
        assert(created_at(
            commands,
            parent_of,
            Seq::<Creation>::empty(),
            Seq::<int>::empty(),
        ));
    } else {
        let short = commands.drop_last();
        let n = commands.len() - 1;
        let whole = with_creations(Seq::empty(), commands, parent_of);
        lemma_with_creations(short, parent_of);
        assert(commands.last() == commands[n]);
        assert forall|i: int| 0 <= i < n implies #[trigger] commands[i] == short[i] by {}
        match with_creations(Seq::empty(), short, parent_of) {
            Err(e) => {
                let i = choose|i: int| #[trigger] first_unusable(short, parent_of, i, e);
                assert forall|j: int| 0 <= j < i implies creation_by(
                    #[trigger] commands[j],
                    parent_of,
                ) is Ok by {
                    assert(commands[j] == short[j]);
                }
                assert(first_unusable(commands, parent_of, i, e));
                assert(whole == Err::<Seq<Creation>, _>(e));
            },
            Ok(list) => {
                let places = choose|places: Seq<int>| #[trigger]
                    created_at(short, parent_of, list, places);
                match creation_by(commands.last(), parent_of) {
                    Err(e) => {
                        assert forall|j: int| 0 <= j < n implies creation_by(
                            #[trigger] commands[j],
                            parent_of,
                        ) is Ok by {
                            lemma_created_is_ok(short, parent_of, list, places, j);
                        }
                        assert(first_unusable(commands, parent_of, n, e));
                        assert(whole == Err::<Seq<Creation>, _>(e));
                    },
                    Ok(None) => {
                        lemma_created_none(commands, parent_of, list, places);
                        assert(whole == Ok::<_, SpecError>(list));
                    },
                    Ok(Some(c)) => {
                        lemma_created_push(commands, parent_of, list, places, c);
                        assert(whole == Ok::<_, SpecError>(list.push(c)));
                        assert(listed_from(commands, parent_of, list.push(c)));
                    },
                }
            },
        }
    }
}

proof fn lemma_created_is_ok(
    commands: Seq<spec::Command>,
    parent_of: Names,
    list: Seq<Creation>,
    places: Seq<int>,
    j: int,
)
    requires
        created_at(commands, parent_of, list, places),
        0 <= j < commands.len(),
    ensures
        creation_by(commands[j], parent_of) is Ok,
{
    if places.contains(j) {
        let k = choose|k: int| 0 <= k < places.len() && places[k] == j;
        assert(creation_by(commands[places[k]], parent_of) is Ok);
    }
}

proof fn lemma_created_none(
    commands: Seq<spec::Command>,
    parent_of: Names,
    list: Seq<Creation>,
    places: Seq<int>,
)
    requires
        commands.len() > 0,
        created_at(commands.drop_last(), parent_of, list, places),
        creation_by(commands.last(), parent_of) == Ok::<Option<Creation>, SpecError>(None),
    ensures
        created_at(commands, parent_of, list, places),
{
    let short = commands.drop_last();
    assert forall|i: int| 0 <= i < commands.len() && !places.contains(i) implies creation_by(
        #[trigger] commands[i],
        parent_of,
    ) == Ok::<Option<Creation>, SpecError>(None) by {
        if i < short.len() {
            assert(commands[i] == short[i]);
        }
    }
    assert forall|k: int| 0 <= k < places.len() implies creation_by(
        commands[#[trigger] places[k]],
        parent_of,
    ) == Ok::<_, SpecError>(Some(list[k])) by {
        assert(commands[places[k]] == short[places[k]]);
    }
}

proof fn lemma_created_push(
    commands: Seq<spec::Command>,
    parent_of: Names,
    list: Seq<Creation>,
    places: Seq<int>,
    c: Creation,
)
    requires
        commands.len() > 0,
        created_at(commands.drop_last(), parent_of, list, places),
        creation_by(commands.last(), parent_of) == Ok::<_, SpecError>(Some(c)),
    ensures
        created_at(commands, parent_of, list.push(c), places.push(commands.len() - 1)),
{
    let short = commands.drop_last();
    let n = commands.len() - 1;
    let more = places.push(n);
    assert forall|i: int| 0 <= i < commands.len() && !more.contains(i) implies creation_by(
        #[trigger] commands[i],
        parent_of,
    ) == Ok::<Option<Creation>, SpecError>(None) by {
        if i == n {
            assert(more[places.len() as int] == i);
        } else {
            assert(commands[i] == short[i]);
            if places.contains(i) {
                let k = choose|k: int| 0 <= k < places.len() && places[k] == i;
                assert(more[k] == i);
            }
        }
    }
    assert forall|k: int| 0 <= k < more.len() implies creation_by(
        commands[#[trigger] more[k]],
        parent_of,
    ) == Ok::<_, SpecError>(Some(list.push(c)[k])) by {
        if k < places.len() {
            assert(more[k] == places[k]);
            assert(commands[places[k]] == short[places[k]]);
        }
    }
}

/// What the commands of a registry create is listed in the order of the commands, each once and
/// none left out. If one of them cannot be used, the first such says why.
pub proof fn law_creations_are_listed(sections: Seq<Section>, parent_of: Names)
    ensures
        ({
            let commands = commands_in(sections);
            match creation_list(sections, parent_of) {
                Ok(list) => listed_from(commands, parent_of, list),
                Err(e) => exists|i: int| #[trigger] first_unusable(commands, parent_of, i, e),
            }
        }),
{
    lemma_creation_list_flat(sections, parent_of);
    lemma_with_creations(commands_in(sections), parent_of);
}

/// `kept` are the members at `places`, and exactly they create a handle that no other creates.
pub open spec fn kept_at(list: Seq<Creation>, kept: Seq<Creation>, places: Seq<int>, n: int) -> bool {
    &&& in_order(places, n)
    &&& places.len() == kept.len()
    &&& forall|k: int| 0 <= k < places.len() ==> kept[k] == list[#[trigger] places[k]]
    &&& forall|i: int|
        0 <= i < n ==> (places.contains(i) <==> forall|j: int|
            0 <= j < list.len() && j != i ==> (#[trigger] list[j]).out_handle_ty
                != list[i].out_handle_ty)
}

proof fn lemma_sole_places(list: Seq<Creation>, n: int) -> (places: Seq<int>)
    requires
        0 <= n <= list.len(),
    ensures
        kept_at(list, sole_creations(list, n), places, n),
    decreases n,
{
    if n <= 0 {
        Seq::empty()
    } else {
        let before = lemma_sole_places(list, n - 1);
        if creates_alone(list, n - 1) {
            let places = before.push(n - 1);
            assert forall|i: int| 0 <= i < n implies (places.contains(i) <==> forall|j: int|
                0 <= j < list.len() && j != i ==> (#[trigger] list[j]).out_handle_ty
                    != list[i].out_handle_ty) by {
                if i == n - 1 {
                    assert(places[before.len() as int] == i);
                } else {
                    if before.contains(i) {
                        let k = choose|k: int| 0 <= k < before.len() && before[k] == i;
                        assert(places[k] == i);
                    }
                    if places.contains(i) {
                        let k = choose|k: int| 0 <= k < places.len() && places[k] == i;
                        assert(before[k] == i);
                    }
                }
            }
            places
        } else {
            assert(!before.contains(n - 1)) by {
                if before.contains(n - 1) {
                    let k = choose|k: int| 0 <= k < before.len() && before[k] == n - 1;
                    assert(before[k] < n - 1);
                }
            }
            before
        }
    }
}

/// The commands that are kept stand in their order, and are exactly those whose handle no other
/// command creates.
pub proof fn law_kept_commands_stay_in_order(list: Seq<Creation>)
    ensures
        exists|places: Seq<int>| #[trigger]
            kept_at(list, sole_creations(list, list.len() as int), places, list.len() as int),
{
    let places = lemma_sole_places(list, list.len() as int);
}

/// The name begins with `xrCreate`, and is neither of the two that are left out.
pub open spec fn creates_by_name(name: Seq<char>) -> bool {
    has_prefix(name, "xrCreate"@) && name != "xrCreateSceneMSFT"@ && name
        != "xrCreateSceneObserverMSFT"@
}

/// Each member of `params` can be read, and `declared` says as what.
pub open spec fn all_declared(params: Seq<spec::Signature>, declared: Seq<Declared>) -> bool {
    &&& params.len() == declared.len()
    &&& forall|i: int|
        0 <= i < params.len() ==> declared_by((#[trigger] params[i]).parts@) == Some(declared[i])
}

proof fn lemma_params_of(params: Seq<spec::Signature>)
    ensures
        match params_of(params) {
            Some(declared) => all_declared(params, declared),
            None => exists|i: int|
                0 <= i < params.len() && declared_by((#[trigger] params[i]).parts@) is None,
        },
    decreases params.len(),
{
    if params.len() > 0 {
        let short = params.drop_last();
        lemma_params_of(short);
        assert(params.last() == params[params.len() - 1]);
        assert forall|i: int| 0 <= i < short.len() implies #[trigger] params[i] == short[i] by {}
        match params_of(short) {
            None => {
                let i = choose|i: int|
                    0 <= i < short.len() && declared_by((#[trigger] short[i]).parts@) is None;
                assert(declared_by(params[i].parts@) is None);
            },
            Some(declared) => {
                assert forall|i: int| 0 <= i < short.len() implies declared_by(
                    (#[trigger] params[i]).parts@,
                ) == Some(declared[i]) by {
                    assert(params[i] == short[i]);
                }
            },
        }
    }
}

/// A command adds a creation exactly if its name says that it creates, it is not another name for
/// a command, all of it can be read, and it creates below the parent of what it creates. What
/// cannot be read is an error only of such a command, except that every command has a name.
pub proof fn law_command_is_judged(c: spec::Command, parent_of: Names)
    ensures
        ({
            let r = creation_by(c, parent_of);
            &&& c.spec_name() is None <==> r == Err::<Option<Creation>, _>(
                SpecError::MalformedCommand,
            ) && c.spec_name() is None
            &&& c.spec_name() is None ==> r is Err
            &&& c.spec_name() matches Some(name) ==> {
                &&& !creates_by_name(name) || c.alias is Some ==> r == Ok::<
                    Option<Creation>,
                    SpecError,
                >(None)
                &&& creates_by_name(name) && c.alias is None ==> {
                    &&& c.proto is None ==> r == Err::<Option<Creation>, _>(SpecError::NoProto)
                    &&& c.proto matches Some(proto) ==> {
                        &&& declared_by(proto.parts@) is None ==> r == Err::<Option<Creation>, _>(
                            SpecError::MalformedCommand,
                        )
                        &&& declared_by(proto.parts@) is Some && c.param is None ==> r == Err::<
                            Option<Creation>,
                            _,
                        >(SpecError::NoParams)
                        &&& declared_by(proto.parts@) matches Some(p) ==> (
                        c.param matches Some(params) ==> {
                            &&& (exists|i: int|
                                0 <= i < params@.len() && declared_by(
                                    (#[trigger] params@[i]).parts@,
                                ) is None) ==> r == Err::<Option<Creation>, _>(
                                SpecError::MalformedCommand,
                            )
                            &&& forall|declared: Seq<Declared>| #[trigger]
                                all_declared(params@, declared) ==> {
                                    let cmd = Callable { proto: p, params: declared };
                                    r == (if parent_is_known(cmd, parent_of) {
                                        Ok(accepted(cmd, parent_of))
                                    } else {
                                        Err(SpecError::MissingParent)
                                    })
                                }
                        })
                    }
                }
            }
        }),
{
    if c.param is Some {
        let params = c.param->Some_0@;
        lemma_params_of(params);
        match params_of(params) {
            Some(found) => {
                assert forall|declared: Seq<Declared>| #[trigger]
                    all_declared(params, declared) implies declared == found by {
                    assert forall|i: int| 0 <= i < params.len() implies declared[i] == found[i] by {
                        assert(declared_by(params[i].parts@) == Some(declared[i]));
                        assert(declared_by(params[i].parts@) == Some(found[i]));
                    }
                    assert(declared =~= found);
                }
            },
            None => {
                assert forall|declared: Seq<Declared>| !#[trigger]
                    all_declared(params, declared) by {
                    let i = choose|i: int|
                        0 <= i < params.len() && declared_by((#[trigger] params[i]).parts@) is None;
                    if all_declared(params, declared) {
                        assert(declared_by(params[i].parts@) == Some(declared[i]));
                    }
                }
            },
        }
    }
}

/// A registry is read exactly if its types and its commands can be used; else the types are
/// complained of first. Its tables are those that the other laws speak of.
pub proof fn law_registry_is_read(registry: &Spec, r: Result<ParsedSpec, SpecError>)
    requires
        call_ensures(ParsedSpec::build, (registry,), r),
    ensures
        parent_table(registry.sections@) matches Err(e) ==> r matches Err(f) && f == e,
        parent_table(registry.sections@) matches Ok(parents) ==> {
            &&& creation_list(registry.sections@, parents) matches Err(e) ==> r matches Err(f) && f
                == e
            &&& creation_list(registry.sections@, parents) matches Ok(list) ==> r matches Ok(p) && {
                &&& p.parent_of@ == parents
                &&& p.command_to_extension@ == extension_table(registry.sections@)
                &&& p.aliases@ == alias_table(registry.sections@)
                &&& exists|places: Seq<int>| #[trigger]
                    kept_at(list, creations(p.create_commands@), places, list.len() as int)
            }
        },
{
    match parent_table(registry.sections@) {
        Ok(parents) => match creation_list(registry.sections@, parents) {
            Ok(list) => {
                law_kept_commands_stay_in_order(list);
            },
            Err(_) => {},
        },
        Err(_) => {},
    }
}

/// The other names of a command are all names that stand for it, each as often as it stands in
/// the table.
pub proof fn law_other_names_stand_for_it(parsed: &ParsedSpec, command: &str, r: Vec<String>)
    requires
        parsed.wf(),
        call_ensures(ParsedSpec::aliases_of, (parsed, command), r),
    ensures
        forall|name: Seq<char>| #[trigger]
            texts(r@).contains(name) <==> parsed.aliases@.contains_key(name)
                && parsed.aliases@[name] == command@,
{
    assert(texts(r@) == parsed.other_names(command@));
    assert forall|name: Seq<char>| #[trigger] texts(r@).contains(name) <==> parsed.aliases@.contains_key(
        name,
    ) && parsed.aliases@[name] == command@ by {
        lemma_other_names(parsed, command@, name);
    }
}

/// A name is one of the other names of a command exactly if it stands for the command.
pub proof fn lemma_other_names(parsed: &ParsedSpec, command: Seq<char>, name: Seq<char>)
    requires
        parsed.wf(),
    ensures
        parsed.other_names(command).contains(name) <==> parsed.aliases@.contains_key(name)
            && parsed.aliases@[name] == command,
{
    parsed.aliases.lemma_keys();
    lemma_filter_holds(parsed.aliases.keys(), parsed.stands_for(command), name);
}

proof fn lemma_filter_holds(s: Seq<Seq<char>>, keep: spec_fn(Seq<char>) -> bool, x: Seq<char>)
    ensures
        s.filter(keep).contains(x) <==> s.contains(x) && keep(x),
    decreases s.len(),
{
    reveal(Seq::filter);
    if s.len() > 0 {
        let short = s.drop_last();
        let before = short.filter(keep);
        lemma_filter_holds(short, keep, x);
        if short.contains(x) {
            let k = choose|k: int| 0 <= k < short.len() && short[k] == x;
            assert(s[k] == x);
        }
        if s.contains(x) {
            let k = choose|k: int| 0 <= k < s.len() && s[k] == x;
            if k < short.len() {
                assert(short[k] == x);
            }
        }
        assert(s[s.len() - 1] == s.last());
        if before.contains(x) {
            let k = choose|k: int| 0 <= k < before.len() && before[k] == x;
            assert(s.filter(keep)[k] == x);
        }
        if keep(s.last()) {
            assert(s.filter(keep)[before.len() as int] == s.last());
        }
        if s.filter(keep).contains(x) {
            let k = choose|k: int| 0 <= k < s.filter(keep).len() && s.filter(keep)[k] == x;
            if k < before.len() {
                assert(before[k] == x);
            }
        }
    }
}

} // verus!
