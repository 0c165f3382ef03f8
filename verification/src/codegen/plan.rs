//! What each macro writes out, as names and parts.

use crate::codegen::model::{CreateCommand, Creation};
use crate::codegen::parsed::{creations, in_order, Names, ParsedSpec};
use crate::text::{
    has_prefix, join, law_cut_and_join, opt_text, str_eq, strip_prefix, strip_suffix,
    without_prefix, without_suffix,
};
use crate::textmap::TextMap;
use heck::ToSnakeCase;
use vstd::prelude::*;
use vstd::string::*;

verus! {

/// What `heck` makes of a text in snake case.
pub uninterp spec fn snake_case(text: Seq<char>) -> Seq<char>;

/// `heck::ToSnakeCase::to_snake_case`: the text in snake case. Where it puts the word boundaries
/// is not said here.
#[verifier::external_body]
pub(crate) fn to_snake(text: &str) -> (r: String)
    ensures
        r@ == snake_case(text@),
{
    text.to_snake_case()
}

/// What std makes of a text in lower case.
pub uninterp spec fn lower_case(text: Seq<char>) -> Seq<char>;

/// `str::to_lowercase`: the text in lower case, by the rules of Unicode, which are not said here.
#[verifier::external_body]
fn to_lower(text: &str) -> (r: String)
    ensures
        r@ == lower_case(text@),
{
    text.to_lowercase()
}

/// What a creating command works on, without the prefix of types.
#[derive(Debug)]
pub struct HandleNames {
    pub handle: String,
    pub parent: String,
    pub create_info: String,
}

/// A `HandleNames` with its strings as sequences of characters.
pub ghost struct ShortNames {
    pub handle: Seq<char>,
    pub parent: Seq<char>,
    pub create_info: Seq<char>,
}

impl View for HandleNames {
    type V = ShortNames;

    open spec fn view(&self) -> ShortNames {
        ShortNames { handle: self.handle@, parent: self.parent@, create_info: self.create_info@ }
    }
}

/// The types of a creating command without their prefix; `None` if one of them has no prefix.
pub open spec fn short_names(c: Creation) -> Option<ShortNames> {
    match (
        without_prefix(c.out_handle_ty, "Xr"@),
        without_prefix(c.parent_ty, "Xr"@),
        without_prefix(c.create_info_ty, "Xr"@),
    ) {
        (Some(handle), Some(parent), Some(create_info)) => Some(
            ShortNames { handle, parent, create_info },
        ),
        _ => None,
    }
}

/// Takes the prefix off the types of a creating command.
pub fn handle_names(c: &CreateCommand) -> (r: Option<HandleNames>)
    ensures
        match r {
            Some(n) => short_names(c@) == Some(n@),
            None => short_names(c@) is None,
        },
{
    let handle = match strip_prefix(c.out_handle_ty.as_str(), "Xr") {
        Some(s) => s,
        None => return None,
    };
    let parent = match strip_prefix(c.parent_ty.as_str(), "Xr") {
        Some(s) => s,
        None => return None,
    };
    let create_info = match strip_prefix(c.create_info_ty.as_str(), "Xr") {
        Some(s) => s,
        None => return None,
    };
    Some(HandleNames { handle, parent, create_info })
}

/// The wrapper of a creating command. The instance has no parent: it is registered below itself.
#[derive(Debug)]
pub struct CreateWrapper {
    pub our_name: String,
    pub names: Option<HandleNames>,
}

/// A `CreateWrapper` with its strings as sequences of characters.
pub ghost struct Wrapper {
    pub our_name: Seq<char>,
    pub names: Option<ShortNames>,
}

impl View for CreateWrapper {
    type V = Wrapper;

    open spec fn view(&self) -> Wrapper {
        Wrapper {
            our_name: self.our_name@,
            names: match self.names {
                Some(n) => Some(n@),
                None => None,
            },
        }
    }
}

/// The wrapper of a creating command that is to be called `our_name`.
pub open spec fn wrapper_named(c: Creation, our_name: Seq<char>) -> Option<Wrapper> {
    if our_name == "create_api_layer_instance"@ {
        Some(Wrapper { our_name, names: None })
    } else {
        match short_names(c) {
            Some(n) => Some(Wrapper { our_name, names: Some(n) }),
            None => None,
        }
    }
}

/// The wrapper of a creating command that is to be called `our_name`.
pub fn name_wrapper(c: &CreateCommand, our_name: String) -> (r: Option<CreateWrapper>)
    ensures
        match r {
            Some(w) => wrapper_named(c@, our_name@) == Some(w@),
            None => wrapper_named(c@, our_name@) is None,
        },
{
    if str_eq(our_name.as_str(), "create_api_layer_instance") {
        return Some(CreateWrapper { our_name, names: None });
    }
    match handle_names(c) {
        Some(n) => Some(CreateWrapper { our_name, names: Some(n) }),
        None => None,
    }
}

/// The wrapper of a creating command.
pub open spec fn wrapper_of(c: Creation) -> Option<Wrapper> {
    match without_prefix(c.name, "xr"@) {
        Some(name) => wrapper_named(c, snake_case(name)),
        None => None,
    }
}

/// Every command has a wrapper.
pub open spec fn all_wrapped(commands: Seq<CreateCommand>) -> bool {
    forall|i: int| 0 <= i < commands.len() ==> wrapper_of((#[trigger] commands[i])@) is Some
}

/// `wrappers` are those of the commands, in their order.
pub open spec fn wrapped_as(commands: Seq<CreateCommand>, wrappers: Seq<CreateWrapper>) -> bool {
    wrappers.len() == commands.len() && forall|i: int|
        0 <= i < wrappers.len() ==> wrapper_of(commands[i]@) == Some((#[trigger] wrappers[i])@)
}

/// The wrappers of all creating commands; `None` if one of them has names without prefix.
pub fn gen_create_wrapper(commands: &[CreateCommand]) -> (r: Option<Vec<CreateWrapper>>)
    ensures
        r is Some <==> all_wrapped(commands@),
        r matches Some(v) ==> wrapped_as(commands@, v@),
{
    let mut out: Vec<CreateWrapper> = Vec::new();
    let mut i: usize = 0;
    while i < commands.len()
        invariant
            i <= commands.len(),
            out@.len() == i,
            forall|j: int| 0 <= j < i ==> wrapper_of((#[trigger] commands@[j])@) is Some,
            forall|j: int| 0 <= j < i ==> wrapper_of(commands@[j]@) == Some((#[trigger] out@[j])@),
        decreases commands.len() - i,
    {
        let c = &commands[i];
        let wrapper = match strip_prefix(c.name.as_str(), "xr") {
            Some(name) => name_wrapper(c, to_snake(name.as_str())),
            None => None,
        };
        match wrapper {
            Some(w) => out.push(w),
            None => {
                assert(wrapper_of(commands@[i as int]@) is None);
                return None;
            },
        }
        i += 1;
    }
    Some(out)
}

/// Where the function that a factory calls is found.
#[derive(Debug)]
pub enum FnSource {
    /// In the functions of the extension `ext`, if it is enabled.
    Extension { ext: String, our_name: String },
    /// In the core functions.
    Core { our_name: String },
}

/// A `FnSource` with its strings as sequences of characters.
pub ghost enum Source {
    Extension { ext: Seq<char>, our_name: Seq<char> },
    Core { our_name: Seq<char> },
}

impl View for FnSource {
    type V = Source;

    open spec fn view(&self) -> Source {
        match *self {
            FnSource::Extension { ext, our_name } => Source::Extension {
                ext: ext@,
                our_name: our_name@,
            },
            FnSource::Core { our_name } => Source::Core { our_name: our_name@ },
        }
    }
}

/// The factory of a handle type.
#[derive(Debug)]
pub struct FactoryPlan {
    pub names: HandleNames,
    pub factory_name: String,
    pub source: FnSource,
}

/// A `FactoryPlan` with its strings as sequences of characters.
pub ghost struct FactoryParts {
    pub names: ShortNames,
    pub factory_name: Seq<char>,
    pub source: Source,
}

impl View for FactoryPlan {
    type V = FactoryParts;

    open spec fn view(&self) -> FactoryParts {
        FactoryParts {
            names: self.names@,
            factory_name: self.factory_name@,
            source: self.source@,
        }
    }
}

/// `n` is the position of the first underscore.
pub open spec fn underscore_at(text: Seq<char>, n: int) -> bool {
    &&& 0 <= n < text.len()
    &&& text[n] == '_'
    &&& forall|j: int| 0 <= j < n ==> text[j] != '_'
}

/// What stands before the first underscore.
pub open spec fn before_underscore(text: Seq<char>) -> Option<Seq<char>> {
    if exists|n: int| underscore_at(text, n) {
        Some(text.subrange(0, choose|n: int| underscore_at(text, n)))
    } else {
        None
    }
}

/// Cuts a text at its first underscore.
pub fn split_tag(text: &str) -> (r: Option<String>)
    ensures
        opt_text(r) == before_underscore(text@),
{
    let n: usize = text.unicode_len();
    let mut i: usize = 0;
    while i < n
        invariant
            i <= n,
            n == text@.len(),
            forall|j: int| 0 <= j < i ==> text@[j] != '_',
        decreases n - i,
    {
        if text.get_char(i) == '_' {
            assert(underscore_at(text@, i as int));
            assert forall|k: int| underscore_at(text@, k) implies k == i by {}
            return Some(text.substring_char(0, i).to_owned());
        }
        i += 1;
    }
    None
}

/// The name of an extension without its prefix, and the name of a command of it without its
/// prefix and without the vendor's tag at its end. `None` if one of them is missing.
pub open spec fn extension_names(command: Seq<char>, extension: Seq<char>) -> Option<
    (Seq<char>, Seq<char>),
> {
    match without_prefix(extension, "XR_"@) {
        Some(ext) => match (before_underscore(ext), without_prefix(command, "xr"@)) {
            (Some(tag), Some(bare)) => match without_suffix(bare, tag) {
                Some(name) => Some((ext, name)),
                None => None,
            },
            _ => None,
        },
        None => None,
    }
}

/// Takes the prefixes and the tag off the names of an extension and a command of it.
pub fn split_extension_names(command: &str, extension: &str) -> (r: Option<(String, String)>)
    ensures
        match r {
            Some(p) => extension_names(command@, extension@) == Some((p.0@, p.1@)),
            None => extension_names(command@, extension@) is None,
        },
{
    let ext = match strip_prefix(extension, "XR_") {
        Some(s) => s,
        None => return None,
    };
    let tag = match split_tag(ext.as_str()) {
        Some(s) => s,
        None => return None,
    };
    let bare = match strip_prefix(command, "xr") {
        Some(s) => s,
        None => return None,
    };
    match strip_suffix(bare.as_str(), tag.as_str()) {
        Some(name) => Some((ext, name)),
        None => None,
    }
}

/// Where the function of a command is found.
pub open spec fn source_of(command: Seq<char>, command_to_extension: Names) -> Option<Source> {
    if command_to_extension.contains_key(command) {
        match extension_names(command, command_to_extension[command]) {
            Some(p) => Some(
                Source::Extension { ext: lower_case(p.0), our_name: snake_case(p.1) },
            ),
            None => None,
        }
    } else {
        match without_prefix(command, "xr"@) {
            Some(name) => Some(Source::Core { our_name: snake_case(name) }),
            None => None,
        }
    }
}

/// Finds where the function of a command is.
pub fn find_source(command: &str, command_to_extension: &TextMap) -> (r: Option<FnSource>)
    requires
        command_to_extension.wf(),
    ensures
        match r {
            Some(s) => source_of(command@, command_to_extension@) == Some(s@),
            None => source_of(command@, command_to_extension@) is None,
        },
{
    match command_to_extension.get(command) {
        Some(extension) => match split_extension_names(command, extension.as_str()) {
            Some((ext, name)) => Some(
                FnSource::Extension {
                    ext: to_lower(ext.as_str()),
                    our_name: to_snake(name.as_str()),
                },
            ),
            None => None,
        },
        None => match strip_prefix(command, "xr") {
            Some(name) => Some(FnSource::Core { our_name: to_snake(name.as_str()) }),
            None => None,
        },
    }
}

/// The factory of what a command creates, given where the command's function is.
pub open spec fn factory_with(c: Creation, source: Source) -> Option<FactoryParts> {
    match short_names(c) {
        Some(names) => Some(
            FactoryParts { names, factory_name: names.handle + "Factory"@, source },
        ),
        None => None,
    }
}

/// The factory of what a command creates, given where the command's function is.
pub fn make_factory(c: &CreateCommand, source: FnSource) -> (r: Option<FactoryPlan>)
    ensures
        match r {
            Some(f) => factory_with(c@, source@) == Some(f@),
            None => factory_with(c@, source@) is None,
        },
{
    match handle_names(c) {
        Some(names) => {
            let factory_name = join(names.handle.as_str(), "Factory");
            Some(FactoryPlan { names, factory_name, source })
        },
        None => None,
    }
}

/// The factory of what a command creates.
pub open spec fn factory_of(c: Creation, command_to_extension: Names) -> Option<FactoryParts> {
    match source_of(c.name, command_to_extension) {
        Some(source) => factory_with(c, source),
        None => None,
    }
}

/// Whether a command needs a factory: the instance has one written by hand.
pub open spec fn wants_factory(c: Creation) -> bool {
    c.name != "xrCreateApiLayerInstance"@
}

/// The factories of the first `n` commands, if all of them can be made.
pub open spec fn factories_of(list: Seq<Creation>, command_to_extension: Names, n: int) -> Option<
    Seq<FactoryParts>,
>
    decreases n,
{
    if n <= 0 {
        Some(Seq::empty())
    } else {
        match factories_of(list, command_to_extension, n - 1) {
            None => None,
            Some(before) => if !wants_factory(list[n - 1]) {
                Some(before)
            } else {
                match factory_of(list[n - 1], command_to_extension) {
                    Some(f) => Some(before.push(f)),
                    None => None,
                }
            },
        }
    }
}

proof fn lemma_factories_none(list: Seq<Creation>, command_to_extension: Names, i: int, n: int)
    requires
        i <= n,
        factories_of(list, command_to_extension, i) is None,
    ensures
        factories_of(list, command_to_extension, n) is None,
    decreases n - i,
{
    if i < n {
        lemma_factories_none(list, command_to_extension, i, n - 1);
    }
}

/// The parts of a list of factories.
pub open spec fn factory_parts(list: Seq<FactoryPlan>) -> Seq<FactoryParts> {
    list.map_values(|f: FactoryPlan| f@)
}

/// The factories of all creating commands but that of the instance.
pub fn impl_create(spec: &ParsedSpec) -> (r: Option<Vec<FactoryPlan>>)
    requires
        spec.wf(),
    ensures
        ({
            let list = creations(spec.create_commands@);
            let all = factories_of(list, spec.command_to_extension@, list.len() as int);
            match r {
                Some(v) => all == Some(factory_parts(v@)),
                None => all is None,
            }
        }),
{
    let ghost list = creations(spec.create_commands@);
    let ghost exts = spec.command_to_extension@;
    let mut out: Vec<FactoryPlan> = Vec::new();
    let mut i: usize = 0;
    assert(factory_parts(out@) =~= Seq::empty());
    while i < spec.create_commands.len()
        invariant
            spec.wf(),
            i <= spec.create_commands.len(),
            list == creations(spec.create_commands@),
            exts == spec.command_to_extension@,
            factories_of(list, exts, i as int) == Some(factory_parts(out@)),
        decreases spec.create_commands.len() - i,
    {
        let c = &spec.create_commands[i];
        assert(list[i as int] == c@);
        if !str_eq(c.name.as_str(), "xrCreateApiLayerInstance") {
            let factory = match find_source(c.name.as_str(), &spec.command_to_extension) {
                Some(source) => make_factory(c, source),
                None => None,
            };
            match factory {
                Some(f) => {
                    let ghost before = out@;
                    out.push(f);
                    assert(factory_parts(out@) =~= factory_parts(before).push(f@));
                },
                None => {
                    proof {
                        lemma_factories_none(list, exts, i + 1, list.len() as int);
                    }
                    return None;
                },
            }
        }
        i += 1;
    }
    Some(out)
}

/// The short names of a command are exactly those that give its types when they are put behind
/// `Xr`.
pub proof fn law_short_names(c: Creation, n: ShortNames)
    ensures
        short_names(c) == Some(n) <==> c.out_handle_ty == "Xr"@ + n.handle && c.parent_ty == "Xr"@
            + n.parent && c.create_info_ty == "Xr"@ + n.create_info,
        short_names(c) is None <==> !has_prefix(c.out_handle_ty, "Xr"@) || !has_prefix(
            c.parent_ty,
            "Xr"@,
        ) || !has_prefix(c.create_info_ty, "Xr"@),
{
    law_cut_and_join(c.out_handle_ty, "Xr"@, n.handle);
    law_cut_and_join(c.parent_ty, "Xr"@, n.parent);
    law_cut_and_join(c.create_info_ty, "Xr"@, n.create_info);
}

/// Only the wrapper of the instance is without names; every other has those of its command. Each
/// is called as it was asked for.
pub proof fn law_wrappers_are_named(c: &CreateCommand, our_name: String, r: Option<CreateWrapper>)
    requires
        call_ensures(name_wrapper, (c, our_name), r),
    ensures
        r matches Some(w) ==> w.our_name@ == our_name@ && (w.names is None <==> our_name@
            == "create_api_layer_instance"@) && (w.names matches Some(n) ==> short_names(c@)
            == Some(n@)),
        r is None <==> our_name@ != "create_api_layer_instance"@ && short_names(c@) is None,
        forall|n: Option<HandleNames>| #[trigger]
            call_ensures(handle_names, (c,), n) ==> match n {
                Some(m) => short_names(c@) == Some(m@) && m@.handle == m.handle@ && m@.parent
                    == m.parent@ && m@.create_info == m.create_info@,
                None => short_names(c@) is None,
            },
{
}

/// The wrapper of a command is called by the command's name without `xr`, in snake case.
pub proof fn law_wrapper_of_command(c: Creation, bare: Seq<char>)
    ensures
        c.name == "xr"@ + bare ==> (wrapper_of(c) matches Some(w) ==> w.our_name == snake_case(
            bare,
        ) && (w.names is None <==> snake_case(bare) == "create_api_layer_instance"@) && (
        w.names is Some ==> w.names == short_names(c))),
        c.name == "xr"@ + bare ==> (wrapper_of(c) is None <==> snake_case(bare)
            != "create_api_layer_instance"@ && short_names(c) is None),
        !has_prefix(c.name, "xr"@) ==> wrapper_of(c) is None,
{
    law_cut_and_join(c.name, "xr"@, bare);
}

/// There is a wrapper for each command, in the commands' order.
pub proof fn law_every_command_has_a_wrapper(
    commands: &[CreateCommand],
    r: Option<Vec<CreateWrapper>>,
)
    requires
        call_ensures(gen_create_wrapper, (commands,), r),
    ensures
        r is Some <==> forall|i: int|
            0 <= i < commands@.len() ==> wrapper_of((#[trigger] commands@[i])@) is Some,
        r matches Some(v) ==> v@.len() == commands@.len(),
        r matches Some(v) ==> forall|i: int|
            0 <= i < v@.len() ==> wrapper_of(commands@[i]@) == Some((#[trigger] v@[i])@),
        r matches Some(v) ==> forall|i: int|
            0 <= i < v@.len() ==> (#[trigger] v@[i])@.our_name == v@[i].our_name@,
{
}

/// An extension's name is cut behind `XR_`, and its tag is what stands before the next
/// underscore. The name of a command is cut behind `xr`, and before that tag.
pub proof fn law_extension_names(
    command: Seq<char>,
    extension: Seq<char>,
    ext: Seq<char>,
    name: Seq<char>,
)
    ensures
        extension_names(command, extension) == Some((ext, name)) <==> extension == "XR_"@ + ext
            && exists|tag: Seq<char>, tail: Seq<char>|
            #![trigger tag + seq!['_'] + tail]
            ext == tag + seq!['_'] + tail && !tag.contains('_') && command == "xr"@ + (name + tag),
{
    law_cut_and_join(extension, "XR_"@, ext);
    if extension_names(command, extension) == Some((ext, name)) {
        let tag = before_underscore(ext)->Some_0;
        let bare = without_prefix(command, "xr"@)->Some_0;
        law_cut_and_join(command, "xr"@, bare);
        law_cut_and_join(bare, tag, name);
        lemma_before_underscore(ext);
        let tail = ext.subrange(tag.len() as int + 1, ext.len() as int);
        assert(ext == tag + seq!['_'] + tail);
    }
    if extension == "XR_"@ + ext && exists|tag: Seq<char>, tail: Seq<char>|
        #![trigger tag + seq!['_'] + tail]
        ext == tag + seq!['_'] + tail && !tag.contains('_') && command == "xr"@ + (name + tag) {
        let (tag, tail) = choose|tag: Seq<char>, tail: Seq<char>|
            #![trigger tag + seq!['_'] + tail]
            ext == tag + seq!['_'] + tail && !tag.contains('_') && command == "xr"@ + (name + tag);
        law_cut_and_join(command, "xr"@, name + tag);
        law_cut_and_join(name + tag, tag, name);
        lemma_underscore_cut(ext, tag, tail);
    }
}

proof fn lemma_before_underscore(text: Seq<char>)
    ensures
        before_underscore(text) matches Some(tag) ==> !tag.contains('_') && tag.len() < text.len()
            && text == tag + seq!['_'] + text.subrange(tag.len() as int + 1, text.len() as int),
{
    if before_underscore(text) is Some {
        let n = choose|n: int| underscore_at(text, n);
        let tag = text.subrange(0, n);
        assert(text =~= tag + seq!['_'] + text.subrange(n + 1, text.len() as int));
    }
}

proof fn lemma_underscore_cut(text: Seq<char>, tag: Seq<char>, tail: Seq<char>)
    requires
        text == tag + seq!['_'] + tail,
        !tag.contains('_'),
    ensures
        before_underscore(text) == Some(tag),
{
    let n = tag.len() as int;
    assert(text[n] == '_');
    assert forall|j: int| 0 <= j < n implies text[j] != '_' by {
        assert(text[j] == tag[j]);
        assert(tag.contains(tag[j]));
    }
    assert(underscore_at(text, n));
    assert forall|k: int| underscore_at(text, k) implies k == n by {}
    assert(text.subrange(0, n) =~= tag);
}

/// A text is cut at its first underscore; one without is not cut.
pub proof fn law_tag_is_before_underscore(text: &str, r: Option<String>)
    requires
        call_ensures(split_tag, (text,), r),
    ensures
        r is None <==> !text@.contains('_'),
        r matches Some(tag) ==> !tag@.contains('_') && tag@.len() < text@.len()
            && text@[tag@.len() as int] == '_' && text@.subrange(0, tag@.len() as int) == tag@,
{
    lemma_before_underscore(text@);
    if text@.contains('_') {
        let i = choose|i: int| 0 <= i < text@.len() && text@[i] == '_';
        lemma_first_underscore(text@, i);
    }
    match r {
        Some(tag) => {
            assert(text@.subrange(0, tag@.len() as int) =~= tag@);
        },
        None => {},
    }
}

proof fn lemma_first_underscore(text: Seq<char>, i: int)
    requires
        0 <= i < text.len(),
        text[i] == '_',
    ensures
        exists|n: int| underscore_at(text, n),
    decreases i,
{
    if exists|j: int| 0 <= j < i && text[j] == '_' {
        let j = choose|j: int| 0 <= j < i && text[j] == '_';
        lemma_first_underscore(text, j);
    } else {
        assert(underscore_at(text, i));
    }
}

/// The function of a command is found in the extension that the command belongs to, if it belongs
/// to one, under its name without the tag; and else among the core functions.
pub proof fn law_functions_are_found(command: &str, table: &TextMap, r: Option<FnSource>)
    requires
        table.wf(),
        call_ensures(find_source, (command, table), r),
    ensures
        table@.contains_key(command@) ==> (r matches Some(s) ==> exists|
            ext: Seq<char>,
            name: Seq<char>,
        | #[trigger]
            extension_names(command@, table@[command@]) == Some((ext, name)) && (
            s matches FnSource::Extension { ext: e, our_name: o } && e@ == lower_case(ext) && o@
                == snake_case(name))),
        table@.contains_key(command@) ==> (r is None <==> extension_names(
            command@,
            table@[command@],
        ) is None),
        !table@.contains_key(command@) ==> (r is None <==> !has_prefix(command@, "xr"@)),
        !table@.contains_key(command@) ==> (r matches Some(s) ==> exists|bare: Seq<char>|
            #![trigger snake_case(bare)]
            command@ == "xr"@ + bare && (s matches FnSource::Core { our_name } && our_name@
                == snake_case(bare))),
{
    match r {
        Some(s) => {
            if table@.contains_key(command@) {
                let p = extension_names(command@, table@[command@])->Some_0;
                assert(extension_names(command@, table@[command@]) == Some((p.0, p.1)));
            } else {
                let bare = without_prefix(command@, "xr"@)->Some_0;
                law_cut_and_join(command@, "xr"@, bare);
                assert(s@ == Source::Core { our_name: snake_case(bare) });
            }
        },
        None => {},
    }
}

/// A factory has the names of its command and is called after the handle; it calls the function
/// where it was found.
pub proof fn law_factory_is_made(c: &CreateCommand, source: FnSource, r: Option<FactoryPlan>)
    requires
        call_ensures(make_factory, (c, source), r),
    ensures
        r is None <==> short_names(c@) is None,
        r matches Some(f) ==> short_names(c@) == Some(f.names@) && f.factory_name@ == f.names.handle@
            + "Factory"@ && f.source@ == source@,
{
}

/// `made` are the factories of the commands at `places`, which are all but that of the instance.
pub open spec fn made_at(
    list: Seq<Creation>,
    table: Names,
    made: Seq<FactoryParts>,
    places: Seq<int>,
    n: int,
) -> bool {
    &&& in_order(places, n)
    &&& places.len() == made.len()
    &&& forall|i: int|
        0 <= i < n ==> (places.contains(i) <==> (#[trigger] list[i]).name
            != "xrCreateApiLayerInstance"@)
    &&& forall|k: int|
        0 <= k < places.len() ==> {
            let c = list[#[trigger] places[k]];
            &&& source_of(c.name, table) == Some(made[k].source)
            &&& short_names(c) == Some(made[k].names)
            &&& made[k].factory_name == made[k].names.handle + "Factory"@
        }
}

proof fn lemma_factories(list: Seq<Creation>, table: Names, n: int) -> (places: Seq<int>)
    requires
        0 <= n <= list.len(),
    ensures
        match factories_of(list, table, n) {
            Some(made) => made_at(list, table, made, places, n),
            None => exists|i: int|
                0 <= i < n && (#[trigger] list[i]).name != "xrCreateApiLayerInstance"@ && (
                source_of(list[i].name, table) is None || short_names(list[i]) is None),
        },
    decreases n,
{
    if n <= 0 {
        Seq::empty()
    } else {
        let before = lemma_factories(list, table, n - 1);
        let c = list[n - 1];
        match factories_of(list, table, n - 1) {
            None => before,
            Some(made) => if !wants_factory(c) {
                assert(!before.contains(n - 1)) by {
                    if before.contains(n - 1) {
                        let k = choose|k: int| 0 <= k < before.len() && before[k] == n - 1;
                        assert(before[k] < n - 1);
                    }
                }
                before
            } else {
                match factory_of(c, table) {
                    None => before,
                    Some(f) => {
                        let places = before.push(n - 1);
                        assert forall|i: int| 0 <= i < n implies (places.contains(i) <==> (
                        #[trigger] list[i]).name != "xrCreateApiLayerInstance"@) by {
                            if i == n - 1 {
                                assert(places[before.len() as int] == i);
                            } else {
                                if before.contains(i) {
                                    let k = choose|k: int|
                                        0 <= k < before.len() && before[k] == i;
                                    assert(places[k] == i);
                                }
                                if places.contains(i) {
                                    let k = choose|k: int|
                                        0 <= k < places.len() && places[k] == i;
                                    assert(before[k] == i);
                                }
                            }
                        }
                        assert forall|k: int| 0 <= k < places.len() implies {
                            let d = list[#[trigger] places[k]];
                            &&& source_of(d.name, table) == Some(made.push(f)[k].source)
                            &&& short_names(d) == Some(made.push(f)[k].names)
                            &&& made.push(f)[k].factory_name == made.push(f)[k].names.handle
                                + "Factory"@
                        } by {
                            if k < before.len() {
                                assert(places[k] == before[k]);
                            }
                        }
                        places
                    },
                }
            },
        }
    }
}

/// Every command but that of the instance has its factory, in the commands' order, unless the
/// names of one of them cannot be cut.
pub proof fn law_every_handle_has_a_factory(parsed: &ParsedSpec, r: Option<Vec<FactoryPlan>>)
    requires
        parsed.wf(),
        call_ensures(impl_create, (parsed,), r),
    ensures
        ({
            let list = creations(parsed.create_commands@);
            match r {
                Some(v) => exists|places: Seq<int>| #[trigger]
                    made_at(
                        list,
                        parsed.command_to_extension@,
                        factory_parts(v@),
                        places,
                        list.len() as int,
                    ),
                None => exists|i: int|
                    0 <= i < list.len() && (#[trigger] list[i]).name
                        != "xrCreateApiLayerInstance"@ && (source_of(
                        list[i].name,
                        parsed.command_to_extension@,
                    ) is None || short_names(list[i]) is None),
            }
        }),
        r matches Some(v) ==> factory_parts(v@).len() == v@.len(),
        r matches Some(v) ==> forall|i: int|
            0 <= i < v@.len() ==> factory_parts(v@)[i] == (#[trigger] v@[i])@,
{
    let list = creations(parsed.create_commands@);
    let places = lemma_factories(list, parsed.command_to_extension@, list.len() as int);
}

} // verus!
