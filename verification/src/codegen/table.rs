//! The table of overridden functions, and the handles that are wrapped as they are.

use crate::codegen::closure::{
    close_hooks, closure_of, default_hook, law_closure_adds_default_hooks,
    law_closure_adds_each_once,
};
use crate::codegen::model::{CreateCommand, Creation};
use crate::codegen::parsed::{creations, in_order, lemma_other_names, Names, ParsedSpec};
use crate::codegen::plan::{snake_case, to_snake};
use crate::codegen::tokens::{
    parse_table_input, table_input_of, Fields, Malformed, TableInput, Token, TokenError,
};
use crate::text::{
    has_prefix, has_text, join, law_cut_and_join, str_eq, strip_prefix, texts, without_prefix,
};
use crate::textmap::TextMap;
use vstd::prelude::*;
use vstd::string::*;

verus! {

/// A handle that has no high-level wrapper, and the type of its create info.
#[derive(Debug)]
pub struct FacadePlan {
    pub handle: String,
    pub create_info: String,
}

/// The handle and the create info of a list of facades.
pub open spec fn facade_names(list: Seq<FacadePlan>) -> Seq<(Seq<char>, Seq<char>)> {
    list.map_values(|f: FacadePlan| (f.handle@, f.create_info@))
}

/// Why the facades cannot be written out.
#[derive(Debug, Clone, Copy, PartialEq, Eq, Structural)]
pub enum FacadeError {
    /// The name of the crate is missing.
    MissingCrate,
    /// A token is not the name of a handle.
    UnexpectedToken,
    /// A type of a creating command has no prefix.
    Malformed,
}

/// The tokens are the name of the crate and names of handles.
pub open spec fn only_idents(tokens: Seq<Token>) -> bool {
    forall|i: int| 1 <= i < tokens.len() ==> (#[trigger] tokens[i]) is Ident
}

/// `handle` is one of the names behind the name of the crate.
pub open spec fn named_in(tokens: Seq<Token>, handle: Seq<char>) -> bool {
    exists|i: int|
        1 <= i < tokens.len() && (#[trigger] tokens[i]) is Ident && tokens[i]->Ident_0@ == handle
}

/// The facades of the first `n` commands: of all but the instance and what is wrapped by hand.
pub open spec fn facades_of(list: Seq<Creation>, tokens: Seq<Token>, n: int) -> Option<
    Seq<(Seq<char>, Seq<char>)>,
>
    decreases n,
{
    if n <= 0 {
        Some(Seq::empty())
    } else {
        match facades_of(list, tokens, n - 1) {
            None => None,
            Some(before) => {
                let c = list[n - 1];
                if c.name == "xrCreateApiLayerInstance"@ {
                    Some(before)
                } else {
                    match without_prefix(c.out_handle_ty, "Xr"@) {
                        None => None,
                        Some(handle) => if named_in(tokens, handle) {
                            Some(before)
                        } else {
                            match without_prefix(c.create_info_ty, "Xr"@) {
                                Some(info) => Some(before.push((handle, info))),
                                None => None,
                            }
                        },
                    }
                }
            },
        }
    }
}

proof fn lemma_facades_none(list: Seq<Creation>, tokens: Seq<Token>, i: int, n: int)
    requires
        i <= n,
        facades_of(list, tokens, i) is None,
    ensures
        facades_of(list, tokens, n) is None,
    decreases n - i,
{
    if i < n {
        lemma_facades_none(list, tokens, i, n - 1);
    }
}

/// The facades of all handles that are not wrapped by hand.
pub fn gen_facades(tokens: &[Token], commands: &[CreateCommand]) -> (r: Result<
    Vec<FacadePlan>,
    FacadeError,
>)
    ensures
        ({
            let list = creations(commands@);
            let all = facades_of(list, tokens@, list.len() as int);
            match r {
                Ok(v) => tokens@.len() > 0 && only_idents(tokens@) && all == Some(
                    facade_names(v@),
                ),
                Err(FacadeError::MissingCrate) => tokens@.len() == 0,
                Err(FacadeError::UnexpectedToken) => tokens@.len() > 0 && !only_idents(tokens@),
                Err(FacadeError::Malformed) => tokens@.len() > 0 && only_idents(tokens@)
                    && all is None,
            }
        }),
{
    if tokens.len() == 0 {
        return Err(FacadeError::MissingCrate);
    }
    let mut manual: Vec<String> = Vec::new();
    let mut i: usize = 1;
    while i < tokens.len()
        invariant
            1 <= i <= tokens.len(),
            manual.len() == i - 1,
            forall|j: int| 1 <= j < i ==> (#[trigger] tokens@[j]) is Ident,
            forall|j: int| 1 <= j < i ==> manual@[j - 1]@ == (#[trigger] tokens@[j])->Ident_0@,
        decreases tokens.len() - i,
    {
        match &tokens[i] {
            Token::Ident(name) => manual.push(name.clone()),
            _ => {
                assert(!(tokens@[i as int] is Ident));
                return Err(FacadeError::UnexpectedToken);
            },
        }
        i += 1;
    }
    assert forall|handle: Seq<char>| #[trigger] texts(manual@).contains(handle) <==> named_in(
        tokens@,
        handle,
    ) by {
        if texts(manual@).contains(handle) {
            let k = choose|k: int| 0 <= k < texts(manual@).len() && texts(manual@)[k] == handle;
            assert(tokens@[k + 1] is Ident && manual@[k]@ == tokens@[k + 1]->Ident_0@);
        }
        if named_in(tokens@, handle) {
            let k = choose|k: int|
                1 <= k < tokens@.len() && (#[trigger] tokens@[k]) is Ident
                    && tokens@[k]->Ident_0@ == handle;
            assert(texts(manual@)[k - 1] == handle);
        }
    }
    let ghost list = creations(commands@);
    let mut out: Vec<FacadePlan> = Vec::new();
    let mut n: usize = 0;
    assert(facade_names(out@) =~= Seq::empty());
    while n < commands.len()
        invariant
            tokens@.len() > 0,
            only_idents(tokens@),
            n <= commands.len(),
            list == creations(commands@),
            forall|handle: Seq<char>| #[trigger]
                texts(manual@).contains(handle) <==> named_in(tokens@, handle),
            facades_of(list, tokens@, n as int) == Some(facade_names(out@)),
        decreases commands.len() - n,
    {
        let c = &commands[n];
        assert(list[n as int] == c@);
        if !str_eq(c.name.as_str(), "xrCreateApiLayerInstance") {
            let handle = match strip_prefix(c.out_handle_ty.as_str(), "Xr") {
                Some(s) => s,
                None => {
                    proof {
                        lemma_facades_none(list, tokens@, n + 1, list.len() as int);
                    }
                    return Err(FacadeError::Malformed);
                },
            };
            if !has_text(manual.as_slice(), handle.as_str()) {
                match strip_prefix(c.create_info_ty.as_str(), "Xr") {
                    Some(create_info) => {
                        let ghost before = out@;
                        let ghost pair = (handle@, create_info@);
                        out.push(FacadePlan { handle, create_info });
                        assert(facade_names(out@) =~= facade_names(before).push(pair));
                    },
                    None => {
                        proof {
                            lemma_facades_none(list, tokens@, n + 1, list.len() as int);
                        }
                        return Err(FacadeError::Malformed);
                    },
                }
            }
        }
        n += 1;
    }
    Ok(out)
}

/// An entry of the table that a function of the user answers.
#[derive(Debug)]
pub struct UserEntry {
    pub name: String,
    pub function: String,
}

/// The names and functions of a list of entries.
pub open spec fn user_pairs(list: Seq<UserEntry>) -> Seq<(Seq<char>, Seq<char>)> {
    list.map_values(|e: UserEntry| (e.name@, e.function@))
}

/// An entry of the table for a creating function of a hooked handle.
#[derive(Debug)]
pub struct CreateEntry {
    pub name: String,
    pub wrapper: String,
    pub hook: String,
}

/// A `CreateEntry` with its strings as sequences of characters.
pub ghost struct CreateParts {
    pub name: Seq<char>,
    pub wrapper: Seq<char>,
    pub hook: Seq<char>,
}

impl View for CreateEntry {
    type V = CreateParts;

    open spec fn view(&self) -> CreateParts {
        CreateParts { name: self.name@, wrapper: self.wrapper@, hook: self.hook@ }
    }
}

/// The parts of a list of entries.
pub open spec fn create_parts(list: Seq<CreateEntry>) -> Seq<CreateParts> {
    list.map_values(|e: CreateEntry| e@)
}

/// An entry of the table for a destroying function of a hooked handle.
#[derive(Debug)]
pub struct DestroyEntry {
    pub name: String,
    pub handle: String,
}

/// The names and handles of a list of entries.
pub open spec fn destroy_pairs(list: Seq<DestroyEntry>) -> Seq<(Seq<char>, Seq<char>)> {
    list.map_values(|e: DestroyEntry| (e.name@, e.handle@))
}

/// A hook that does nothing but keep track of a handle.
#[derive(Debug)]
pub struct DefaultHook {
    pub name: String,
    pub handle: String,
}

/// The names and handles of a list of default hooks.
pub open spec fn hook_pairs(list: Seq<DefaultHook>) -> Seq<(Seq<char>, Seq<char>)> {
    list.map_values(|e: DefaultHook| (e.name@, e.handle@))
}

/// All that the table is written out from.
#[derive(Debug)]
pub struct TablePlan {
    pub crate_name: String,
    /// The hook of the instance, which the table belongs to.
    pub instance_data: String,
    pub user_overrides: Vec<UserEntry>,
    pub creates: Vec<CreateEntry>,
    pub destroys: Vec<DestroyEntry>,
    pub default_hooks: Vec<DefaultHook>,
}

/// Why the table cannot be written out.
#[derive(Debug)]
pub enum TableError {
    /// The input cannot be read.
    Tokens(TokenError),
    /// The parents of some hooked handle do not lead to the instance.
    NoParent,
    /// The user overrides a creating function, which is generated.
    GeneratedCreate(String),
    /// The user overrides another name of a function: that name, and the function.
    OtherName(String, String),
    /// The user overrides a destroying function, which is generated.
    GeneratedDestroy(String),
}

/// A `TableError` with its strings as sequences of characters.
pub ghost enum TableFault {
    Tokens(Malformed),
    NoParent,
    GeneratedCreate(Seq<char>),
    OtherName(Seq<char>, Seq<char>),
    GeneratedDestroy(Seq<char>),
}

impl View for TableError {
    type V = TableFault;

    open spec fn view(&self) -> TableFault {
        match *self {
            TableError::Tokens(e) => TableFault::Tokens(e@),
            TableError::NoParent => TableFault::NoParent,
            TableError::GeneratedCreate(f) => TableFault::GeneratedCreate(f@),
            TableError::OtherName(f, of) => TableFault::OtherName(f@, of@),
            TableError::GeneratedDestroy(f) => TableFault::GeneratedDestroy(f@),
        }
    }
}

/// Some creating command has this name.
pub open spec fn is_generated(list: Seq<Creation>, name: Seq<char>) -> bool {
    exists|i: int| 0 <= i < list.len() && (#[trigger] list[i]).name == name
}

/// What is wrong with overriding `name`, if anything.
pub open spec fn override_fault(list: Seq<Creation>, aliases: Names, name: Seq<char>) -> Option<
    TableFault,
> {
    if is_generated(list, name) {
        Some(TableFault::GeneratedCreate(name))
    } else if aliases.contains_key(name) {
        Some(TableFault::OtherName(name, aliases[name]))
    } else {
        match without_prefix(name, "xrDestroy"@) {
            Some(handle) => if is_generated(list, "xrCreate"@ + handle) {
                Some(TableFault::GeneratedDestroy(name))
            } else {
                None
            },
            None => None,
        }
    }
}

/// Each of `names`, answered by `function`.
pub open spec fn answered_by(names: Seq<Seq<char>>, function: Seq<char>) -> Seq<
    (Seq<char>, Seq<char>),
> {
    names.map_values(|n: Seq<char>| (n, function))
}

/// The entries for the user's functions in the order of `keys`, each followed by the entries for
/// the other names of what it overrides; or the first fault.
pub open spec fn user_entries(
    spec: &ParsedSpec,
    keys: Seq<Seq<char>>,
    fns: Names,
) -> Result<Seq<(Seq<char>, Seq<char>)>, TableFault>
    decreases keys.len(),
{
    if keys.len() == 0 {
        Ok(Seq::empty())
    } else {
        match user_entries(spec, keys.drop_last(), fns) {
            Err(e) => Err(e),
            Ok(before) => {
                let k = keys.last();
                match override_fault(creations(spec.create_commands@), spec.aliases@, k) {
                    Some(fault) => Err(fault),
                    None => Ok(
                        before.push((k, fns[k])) + answered_by(spec.other_names(k), fns[k]),
                    ),
                }
            },
        }
    }
}

/// The entry for the creating function of `handle`.
pub open spec fn create_part(handle: Seq<char>, snake: Seq<char>, hook: Seq<char>) -> CreateParts {
    CreateParts { name: "xrCreate"@ + handle, wrapper: "create_"@ + snake, hook }
}

/// The entries for the creating functions of all hooked handles but the instance.
pub open spec fn create_entries(keys: Seq<Seq<char>>, hooks: Names) -> Seq<CreateParts>
    decreases keys.len(),
{
    if keys.len() == 0 {
        Seq::empty()
    } else {
        let before = create_entries(keys.drop_last(), hooks);
        let k = keys.last();
        if k == "Instance"@ {
            before
        } else {
            before.push(create_part(k, snake_case(k), hooks[k]))
        }
    }
}

/// The entries for the destroying functions of all hooked handles.
pub open spec fn destroy_entries(keys: Seq<Seq<char>>) -> Seq<(Seq<char>, Seq<char>)> {
    keys.map_values(|k: Seq<char>| ("xrDestroy"@ + k, k))
}

/// The default hooks of these handles.
pub open spec fn default_hooks_of(added: Seq<Seq<char>>) -> Seq<(Seq<char>, Seq<char>)> {
    added.map_values(|t: Seq<char>| (default_hook(t), t))
}

/// The hooks with the instance among them.
pub open spec fn with_instance(hooks: Names) -> Names {
    if hooks.contains_key("Instance"@) {
        hooks
    } else {
        hooks.insert("Instance"@, "DefaultInstanceHook"@)
    }
}

/// The handles whose default hooks are written out: those that were added and, if there are any,
/// the instance where the user has no hook for it. Where none was added, the hook of the instance
/// is only named, and left to the user to write.
pub open spec fn defaulted(hooks: Names, added: Seq<Seq<char>>) -> Seq<Seq<char>> {
    if hooks.contains_key("Instance"@) || added.len() == 0 {
        added
    } else {
        added.push("Instance"@)
    }
}

/// The keys of the hooks with the instance among them.
pub open spec fn keys_with_instance(keys: Seq<Seq<char>>, hooks: Names) -> Seq<Seq<char>> {
    if hooks.contains_key("Instance"@) {
        keys
    } else {
        keys.push("Instance"@)
    }
}

/// `keys` lists the hooks at the end: those of the start, and then what was added.
pub open spec fn lists_hooks(keys: Seq<Seq<char>>, hooks: Names) -> bool {
    keys.no_duplicates() && forall|k: Seq<char>| #[trigger]
        keys.contains(k) <==> hooks.contains_key(k)
}

/// `r` is what comes of an input.
pub open spec fn planned(
    input: TableInput,
    spec: &ParsedSpec,
    r: Result<TablePlan, TableError>,
) -> bool {
    let hooks = with_instance(input.hooks@);
    let keys = keys_with_instance(input.hooks.keys(), input.hooks@);
    let parents = spec.parent_of@;
    let entries = user_entries(spec, input.override_fns.keys(), input.override_fns@);
    match closure_of(parents, hooks, keys) {
        None => r matches Err(e) && e@ == TableFault::NoParent,
        Some((end, added)) => match entries {
            Err(fault) => r matches Err(e) && e@ == fault,
            Ok(pairs) => r matches Ok(plan) && {
                &&& plan.crate_name@ == input.crate_name@
                &&& plan.instance_data@ == hooks["Instance"@]
                &&& user_pairs(plan.user_overrides@) == pairs
                &&& exists|order: Seq<Seq<char>>| #[trigger]
                    lists_hooks(order, end) && create_parts(plan.creates@) == create_entries(
                        order,
                        end,
                    ) && destroy_pairs(plan.destroys@) == destroy_entries(order)
                &&& hook_pairs(plan.default_hooks@) == default_hooks_of(
                    defaulted(input.hooks@, added),
                )
                &&& hook_pairs(plan.default_hooks@).no_duplicates()
            },
        },
    }
}

/// Whether some creating command has this name.
fn generated(commands: &[CreateCommand], name: &str) -> (r: bool)
    ensures
        r == is_generated(creations(commands@), name@),
{
    let ghost list = creations(commands@);
    let mut i: usize = 0;
    while i < commands.len()
        invariant
            i <= commands.len(),
            list == creations(commands@),
            forall|j: int| 0 <= j < i ==> (#[trigger] list[j]).name != name@,
        decreases commands.len() - i,
    {
        if str_eq(commands[i].name.as_str(), name) {
            assert(list[i as int].name == name@);
            return true;
        }
        i += 1;
    }
    false
}

/// What is wrong with overriding `name`, if anything.
pub fn check_override(spec: &ParsedSpec, name: &str) -> (r: Option<TableError>)
    requires
        spec.wf(),
    ensures
        match override_fault(creations(spec.create_commands@), spec.aliases@, name@) {
            Some(fault) => r matches Some(e) && e@ == fault,
            None => r is None,
        },
{
    if generated(spec.create_commands.as_slice(), name) {
        return Some(TableError::GeneratedCreate(name.to_owned()));
    }
    match spec.aliases.get(name) {
        Some(of) => return Some(TableError::OtherName(name.to_owned(), of)),
        None => (),
    }
    match strip_prefix(name, "xrDestroy") {
        Some(handle) => {
            let create = join("xrCreate", handle.as_str());
            if generated(spec.create_commands.as_slice(), create.as_str()) {
                Some(TableError::GeneratedDestroy(name.to_owned()))
            } else {
                None
            }
        },
        None => None,
    }
}

proof fn lemma_user_entries_err(spec: &ParsedSpec, keys: Seq<Seq<char>>, fns: Names, i: int)
    requires
        0 <= i <= keys.len(),
        user_entries(spec, keys.subrange(0, i), fns) is Err,
    ensures
        user_entries(spec, keys, fns) == user_entries(spec, keys.subrange(0, i), fns),
    decreases keys.len() - i,
{
    if i < keys.len() {
        assert(keys.subrange(0, i + 1).drop_last() =~= keys.subrange(0, i));
        lemma_user_entries_err(spec, keys, fns, i + 1);
    } else {
        assert(keys.subrange(0, i) =~= keys);
    }
}

/// The entries for the user's functions.
fn make_user_entries(spec: &ParsedSpec, fns: &TextMap) -> (r: Result<Vec<UserEntry>, TableError>)
    requires
        spec.wf(),
        fns.wf(),
    ensures
        match user_entries(spec, fns.keys(), fns@) {
            Ok(pairs) => r matches Ok(v) && user_pairs(v@) == pairs,
            Err(fault) => r matches Err(e) && e@ == fault,
        },
{
    let ghost keys = fns.keys();
    let mut out: Vec<UserEntry> = Vec::new();
    let mut i: usize = 0;
    proof {
        assert(keys.subrange(0, 0) =~= Seq::empty());
        assert(user_pairs(out@) =~= Seq::empty());
    }
    while i < fns.len()
        invariant
            spec.wf(),
            fns.wf(),
            keys == fns.keys(),
            i <= keys.len(),
            user_entries(spec, keys.subrange(0, i as int), fns@) == Ok::<_, TableFault>(
                user_pairs(out@),
            ),
        decreases keys.len() - i,
    {
        proof {
            assert(keys.subrange(0, i + 1).drop_last() =~= keys.subrange(0, i as int));
        }
        let (k, v) = fns.entry(i);
        match check_override(spec, k.as_str()) {
            Some(e) => {
                proof {
                    lemma_user_entries_err(spec, keys, fns@, i + 1);
                }
                return Err(e);
            },
            None => (),
        }
        let ghost before = out@;
        out.push(UserEntry { name: k.clone(), function: v.clone() });
        let ghost base = user_pairs(out@);
        assert(base =~= user_pairs(before).push((k@, v@)));
        let others = spec.aliases_of(k.as_str());
        let ghost names = spec.other_names(k@);
        let ghost answers = answered_by(names, v@);
        let mut j: usize = 0;
        proof {
            assert(others@.map_values(|s: String| s@).len() == others@.len());
            assert(base + answers.subrange(0, 0) =~= base);
        }
        while j < others.len()
            invariant
                j <= others.len(),
                others@.len() == names.len(),
                others@.map_values(|s: String| s@) == names,
                answers == answered_by(names, v@),
                user_pairs(out@) == base + answers.subrange(0, j as int),
            decreases others.len() - j,
        {
            let ghost here = out@;
            out.push(UserEntry { name: others[j].clone(), function: v.clone() });
            proof {
                assert(others@.map_values(|s: String| s@)[j as int] == others@[j as int]@);
                assert(answers[j as int] == (names[j as int], v@));
                assert(user_pairs(out@) =~= user_pairs(here).push(answers[j as int]));
                assert(answers.subrange(0, j + 1) =~= answers.subrange(0, j as int).push(
                    answers[j as int],
                ));
            }
            j += 1;
        }
        assert(answers.subrange(0, answers.len() as int) =~= answers);
        i += 1;
    }
    assert(keys.subrange(0, keys.len() as int) =~= keys);
    Ok(out)
}

/// The entry for the creating function of `handle`, whose name in snake case is `snake`.
pub fn make_create_entry(handle: &str, snake: &str, hook: &str) -> (r: CreateEntry)
    ensures
        r@ == create_part(handle@, snake@, hook@),
{
    CreateEntry {
        name: join("xrCreate", handle),
        wrapper: join("create_", snake),
        hook: hook.to_owned(),
    }
}

/// The entries for the creating functions.
fn make_create_entries(hooks: &TextMap) -> (r: Vec<CreateEntry>)
    requires
        hooks.wf(),
    ensures
        create_parts(r@) == create_entries(hooks.keys(), hooks@),
{
    let ghost keys = hooks.keys();
    let mut out: Vec<CreateEntry> = Vec::new();
    let mut i: usize = 0;
    proof {
        assert(keys.subrange(0, 0) =~= Seq::empty());
        assert(create_parts(out@) =~= Seq::empty());
    }
    while i < hooks.len()
        invariant
            hooks.wf(),
            keys == hooks.keys(),
            i <= keys.len(),
            create_parts(out@) == create_entries(keys.subrange(0, i as int), hooks@),
        decreases keys.len() - i,
    {
        proof {
            assert(keys.subrange(0, i + 1).drop_last() =~= keys.subrange(0, i as int));
        }
        let (k, v) = hooks.entry(i);
        if !str_eq(k.as_str(), "Instance") {
            let ghost before = out@;
            let snake = to_snake(k.as_str());
            let e = make_create_entry(k.as_str(), snake.as_str(), v.as_str());
            out.push(e);
            assert(create_parts(out@) =~= create_parts(before).push(e@));
        }
        i += 1;
    }
    assert(keys.subrange(0, keys.len() as int) =~= keys);
    out
}

/// The entries for the destroying functions.
fn make_destroy_entries(hooks: &TextMap) -> (r: Vec<DestroyEntry>)
    requires
        hooks.wf(),
    ensures
        destroy_pairs(r@) == destroy_entries(hooks.keys()),
{
    let ghost keys = hooks.keys();
    let mut out: Vec<DestroyEntry> = Vec::new();
    let mut i: usize = 0;
    while i < hooks.len()
        invariant
            hooks.wf(),
            keys == hooks.keys(),
            i <= keys.len(),
            out@.len() == i,
            forall|j: int|
                0 <= j < i ==> (#[trigger] out@[j]).name@ == "xrDestroy"@ + keys[j]
                    && out@[j].handle@ == keys[j],
        decreases keys.len() - i,
    {
        let (k, _) = hooks.entry(i);
        out.push(DestroyEntry { name: join("xrDestroy", k.as_str()), handle: k.clone() });
        i += 1;
    }
    assert(destroy_pairs(out@) =~= destroy_entries(keys));
    out
}

/// The default hooks of the handles that were added.
fn make_default_hooks(added: &[String]) -> (r: Vec<DefaultHook>)
    ensures
        hook_pairs(r@) == default_hooks_of(texts(added@)),
{
    let mut out: Vec<DefaultHook> = Vec::new();
    let mut i: usize = 0;
    while i < added.len()
        invariant
            i <= added.len(),
            out@.len() == i,
            forall|j: int|
                0 <= j < i ==> (#[trigger] out@[j]).name@ == default_hook(added@[j]@)
                    && out@[j].handle@ == added@[j]@,
        decreases added.len() - i,
    {
        let mut name = join("Default", added[i].as_str());
        name.append("Hook");
        out.push(DefaultHook { name, handle: added[i].clone() });
        i += 1;
    }
    assert(hook_pairs(out@) =~= default_hooks_of(texts(added@)));
    out
}

/// Plans the table for an input that has been read.
pub fn plan_table(input: TableInput, spec: &ParsedSpec) -> (r: Result<TablePlan, TableError>)
    requires
        input.hooks.wf(),
        input.override_fns.wf(),
        spec.wf(),
    ensures
        planned(input, spec, r),
{
    let ghost start_hooks = with_instance(input.hooks@);
    let ghost start_keys = keys_with_instance(input.hooks.keys(), input.hooks@);
    let TableInput { crate_name, mut hooks, override_fns } = input;
    let own_instance = hooks.contains_key("Instance");
    if !own_instance {
        hooks.insert("Instance".to_owned(), "DefaultInstanceHook".to_owned());
    }
    assert(hooks@ == start_hooks && hooks.keys() == start_keys);
    let instance_data = match hooks.get("Instance") {
        Some(hook) => hook,
        None => String::new(),
    };
    let mut added = match close_hooks(&mut hooks, &spec.parent_of) {
        Some(added) => added,
        None => return Err(TableError::NoParent),
    };
    let ghost closure = texts(added@);
    assert(closure.len() == added@.len());
    if !own_instance && added.len() > 0 {
        added.push("Instance".to_owned());
        assert(texts(added@) =~= closure.push("Instance"@));
    }
    let user_overrides = match make_user_entries(spec, &override_fns) {
        Ok(entries) => entries,
        Err(e) => return Err(e),
    };
    let creates = make_create_entries(&hooks);
    let destroys = make_destroy_entries(&hooks);
    let default_hooks = make_default_hooks(added.as_slice());
    proof {
        hooks.lemma_keys();
        assert(closure_of(spec.parent_of@, start_hooks, start_keys) == Some((hooks@, closure)));
        assert(lists_hooks(hooks.keys(), hooks@));
        spec.parent_of.lemma_keys();
        lemma_defaults_differ(spec.parent_of@, input.hooks@, start_keys);
    }
    Ok(
        TablePlan {
            crate_name,
            instance_data,
            user_overrides,
            creates,
            destroys,
            default_hooks,
        },
    )
}

/// `r` is what comes of an input with this crate and these fields.
pub open spec fn planned_from(
    crate_name: Seq<char>,
    fields: Fields,
    spec: &ParsedSpec,
    r: Result<TablePlan, TableError>,
) -> bool {
    exists|input: TableInput| #[trigger]
        planned(input, spec, r) && input.hooks.wf() && input.override_fns.wf()
            && input.crate_name@ == crate_name && fields == (Fields {
            hooks: input.hooks@,
            override_fns: input.override_fns@,
        })
}

/// Plans the table of overridden functions.
pub fn gen_override_table(tokens: &[Token], spec: &ParsedSpec) -> (r: Result<TablePlan, TableError>)
    requires
        spec.wf(),
    ensures
        match table_input_of(tokens@) {
            Err(e) => r matches Err(f) && f@ == TableFault::Tokens(e),
            Ok(fields) => planned_from(tokens@[0]->Ident_0@, fields, spec, r),
        },
{
    match parse_table_input(tokens) {
        Ok(input) => {
            let r = plan_table(input, spec);
            assert(planned(input, spec, r));
            r
        },
        Err(e) => Err(TableError::Tokens(e)),
    }
}

proof fn lemma_create_entry_of(keys: Seq<Seq<char>>, hooks: Names, i: int)
    requires
        0 <= i < keys.len(),
        keys[i] != "Instance"@,
    ensures
        create_entries(keys, hooks).contains(
            create_part(keys[i], snake_case(keys[i]), hooks[keys[i]]),
        ),
    decreases keys.len(),
{
    let short = keys.drop_last();
    let before = create_entries(short, hooks);
    let all = create_entries(keys, hooks);
    let part = create_part(keys[i], snake_case(keys[i]), hooks[keys[i]]);
    if i < short.len() {
        assert(short[i] == keys[i]);
        lemma_create_entry_of(short, hooks, i);
        let n = choose|n: int| 0 <= n < before.len() && before[n] == part;
        assert(all[n] == part);
    } else {
        assert(all[before.len() as int] == part);
    }
}

/// The table answers the destroying function of every hooked handle, and the creating function
/// of every hooked handle but the instance.
pub proof fn law_table_covers_hooks(order: Seq<Seq<char>>, hooks: Names, handle: Seq<char>)
    requires
        lists_hooks(order, hooks),
        hooks.contains_key(handle),
    ensures
        destroy_entries(order).contains(("xrDestroy"@ + handle, handle)),
        handle != "Instance"@ ==> create_entries(order, hooks).contains(
            create_part(handle, snake_case(handle), hooks[handle]),
        ),
{
    assert(order.contains(handle));
    let i = choose|i: int| 0 <= i < order.len() && order[i] == handle;
    assert(destroy_entries(order)[i] == ("xrDestroy"@ + handle, handle));
    if handle != "Instance"@ {
        lemma_create_entry_of(order, hooks, i);
    }
}

/// A table is planned only if the user overrides no generated function and no other name of a
/// function.
pub proof fn law_overrides_are_allowed(
    spec: &ParsedSpec,
    keys: Seq<Seq<char>>,
    fns: Names,
    i: int,
)
    requires
        user_entries(spec, keys, fns) is Ok,
        0 <= i < keys.len(),
    ensures
        override_fault(creations(spec.create_commands@), spec.aliases@, keys[i]) is None,
        user_entries(spec, keys, fns)->Ok_0.contains((keys[i], fns[keys[i]])),
    decreases keys.len(),
{
    let short = keys.drop_last();
    let all = user_entries(spec, keys, fns)->Ok_0;
    let before = user_entries(spec, short, fns)->Ok_0;
    if i < short.len() {
        assert(short[i] == keys[i]);
        law_overrides_are_allowed(spec, short, fns, i);
        let n = choose|n: int| 0 <= n < before.len() && before[n] == (keys[i], fns[keys[i]]);
        assert(all[n] == before[n]);
    } else {
        assert(all[before.len() as int] == (keys[i], fns[keys[i]]));
    }
}

/// No default hook is written out twice.
proof fn lemma_defaults_differ(parent_of: Names, hooks: Names, keys: Seq<Seq<char>>)
    requires
        parent_of.dom().finite(),
        closure_of(parent_of, with_instance(hooks), keys) is Some,
    ensures
        default_hooks_of(
            defaulted(hooks, closure_of(parent_of, with_instance(hooks), keys)->Some_0.1),
        ).no_duplicates(),
{
    let start = with_instance(hooks);
    let added = closure_of(parent_of, start, keys)->Some_0.1;
    let defaults = defaulted(hooks, added);
    let pairs = default_hooks_of(defaults);
    law_closure_adds_each_once(parent_of, start, keys);
    law_closure_adds_default_hooks(parent_of, start, keys, "Instance"@);
    assert forall|a: int, b: int| 0 <= a < b < pairs.len() implies pairs[a] != pairs[b] by {
        assert(pairs[a].1 == defaults[a] && pairs[b].1 == defaults[b]);
        assert(added.contains(added[a]));
    }
}

/// Besides the instance, which is always hooked, the table hooks what the user hooked and what
/// has a default hook, and no handle is both. The user's hooks are kept.
pub proof fn law_table_keeps_the_users_hooks(spec: &ParsedSpec, input: TableInput, k: Seq<char>)
    requires
        spec.wf(),
        closure_of(
            spec.parent_of@,
            with_instance(input.hooks@),
            keys_with_instance(input.hooks.keys(), input.hooks@),
        ) is Some,
    ensures
        ({
            let hooks = with_instance(input.hooks@);
            let keys = keys_with_instance(input.hooks.keys(), input.hooks@);
            let (end, added) = closure_of(spec.parent_of@, hooks, keys)->Some_0;
            let defaults = defaulted(input.hooks@, added);
            &&& end.contains_key(k) <==> input.hooks@.contains_key(k) || defaults.contains(k) || k
                == "Instance"@
            &&& input.hooks@.contains_key(k) ==> !defaults.contains(k) && end[k] == input.hooks@[k]
            &&& end.contains_key(k) && !input.hooks@.contains_key(k) ==> end[k] == default_hook(k)
        }),
{
    let hooks = with_instance(input.hooks@);
    let keys = keys_with_instance(input.hooks.keys(), input.hooks@);
    let added = closure_of(spec.parent_of@, hooks, keys)->Some_0.1;
    let defaults = defaulted(input.hooks@, added);
    spec.parent_of.lemma_keys();
    law_closure_adds_default_hooks(spec.parent_of@, hooks, keys, k);
    reveal_strlit("Default");
    reveal_strlit("Instance");
    reveal_strlit("Hook");
    reveal_strlit("DefaultInstanceHook");
    assert("DefaultInstanceHook"@ =~= default_hook("Instance"@));
    if !input.hooks@.contains_key("Instance"@) && added.len() > 0 {
        assert(defaults.last() == "Instance"@);
        if added.contains(k) {
            let j = choose|j: int| 0 <= j < added.len() && added[j] == k;
            assert(defaults[j] == k);
        }
        if defaults.contains(k) && k != "Instance"@ {
            let j = choose|j: int| 0 <= j < defaults.len() && defaults[j] == k;
            assert(added[j] == k);
        }
    }
}

/// What the lists of a plan hold, member by member.
pub proof fn law_plans_are_seen(
    a: Seq<FacadePlan>,
    b: Seq<UserEntry>,
    c: Seq<CreateEntry>,
    d: Seq<DestroyEntry>,
    e: Seq<DefaultHook>,
    i: int,
)
    ensures
        facade_names(a).len() == a.len(),
        user_pairs(b).len() == b.len(),
        create_parts(c).len() == c.len(),
        destroy_pairs(d).len() == d.len(),
        hook_pairs(e).len() == e.len(),
        0 <= i < a.len() ==> facade_names(a)[i] == (a[i].handle@, a[i].create_info@),
        0 <= i < b.len() ==> user_pairs(b)[i] == (b[i].name@, b[i].function@),
        0 <= i < c.len() ==> create_parts(c)[i].name == c[i].name@ && create_parts(c)[i].wrapper
            == c[i].wrapper@ && create_parts(c)[i].hook == c[i].hook@,
        0 <= i < d.len() ==> destroy_pairs(d)[i] == (d[i].name@, d[i].handle@),
        0 <= i < e.len() ==> hook_pairs(e)[i] == (e[i].name@, e[i].handle@),
{
}

/// A function may not be overridden exactly if it is a creating command, is another name for a
/// command, or destroys a handle that a creating command creates; the first of these is what is
/// complained of.
pub proof fn law_forbidden_overrides(parsed: &ParsedSpec, name: &str, r: Option<TableError>)
    requires
        parsed.wf(),
        call_ensures(check_override, (parsed, name), r),
    ensures
        ({
            let creates = exists|i: int|
                0 <= i < parsed.create_commands@.len() && (
                #[trigger] parsed.create_commands@[i]).name@ == name@;
            let renames = parsed.aliases@.contains_key(name@);
            let destroys = exists|handle: Seq<char>, i: int|
                name@ == "xrDestroy"@ + handle && 0 <= i < parsed.create_commands@.len() && (
                #[trigger] parsed.create_commands@[i]).name@ == #[trigger] ("xrCreate"@ + handle);
            &&& r is None <==> !creates && !renames && !destroys
            &&& creates ==> (r matches Some(e) && (e matches TableError::GeneratedCreate(n) && n@
                == name@))
            &&& !creates && renames ==> (r matches Some(e) && (e matches TableError::OtherName(
                n,
                of,
            ) && n@ == name@ && of@ == parsed.aliases@[name@]))
            &&& !creates && !renames && destroys ==> (r matches Some(e) && (
            e matches TableError::GeneratedDestroy(n) && n@ == name@))
        }),
{
    let list = creations(parsed.create_commands@);
    assert(list.len() == parsed.create_commands@.len());
    assert forall|n: Seq<char>| #[trigger] is_generated(list, n) <==> exists|i: int|
        0 <= i < parsed.create_commands@.len() && (#[trigger] parsed.create_commands@[i]).name@
            == n by {
        if is_generated(list, n) {
            let i = choose|i: int| 0 <= i < list.len() && (#[trigger] list[i]).name == n;
            assert(parsed.create_commands@[i].name@ == n);
        }
        if exists|i: int|
            0 <= i < parsed.create_commands@.len() && (#[trigger] parsed.create_commands@[i]).name@
                == n {
            let i = choose|i: int|
                0 <= i < parsed.create_commands@.len() && (
                #[trigger] parsed.create_commands@[i]).name@ == n;
            assert(list[i].name == n);
        }
    }
    if exists|handle: Seq<char>, i: int|
        name@ == "xrDestroy"@ + handle && 0 <= i < parsed.create_commands@.len() && (
        #[trigger] parsed.create_commands@[i]).name@ == #[trigger] ("xrCreate"@ + handle) {
        let (handle, i) = choose|handle: Seq<char>, i: int|
            name@ == "xrDestroy"@ + handle && 0 <= i < parsed.create_commands@.len() && (
            #[trigger] parsed.create_commands@[i]).name@ == #[trigger] ("xrCreate"@ + handle);
        law_cut_and_join(name@, "xrDestroy"@, handle);
        assert(parsed.create_commands@[i].name@ == "xrCreate"@ + handle);
        assert(is_generated(list, "xrCreate"@ + handle));
    }
    match without_prefix(name@, "xrDestroy"@) {
        Some(handle) => {
            law_cut_and_join(name@, "xrDestroy"@, handle);
            if is_generated(list, "xrCreate"@ + handle) {
                let i = choose|i: int|
                    0 <= i < parsed.create_commands@.len() && (
                    #[trigger] parsed.create_commands@[i]).name@ == "xrCreate"@ + handle;
                assert(parsed.create_commands@[i].name@ == "xrCreate"@ + handle);
            }
        },
        None => {},
    }
}

proof fn lemma_user_entries(parsed: &ParsedSpec, keys: Seq<Seq<char>>, fns: Names)
    requires
        parsed.wf(),
    ensures
        ({
            let list = creations(parsed.create_commands@);
            match user_entries(parsed, keys, fns) {
                Ok(entries) => {
                    &&& forall|i: int|
                        0 <= i < keys.len() ==> override_fault(
                            list,
                            parsed.aliases@,
                            #[trigger] keys[i],
                        ) is None
                    &&& forall|name: Seq<char>, f: Seq<char>| #[trigger]
                        entries.contains((name, f)) <==> exists|i: int|
                            0 <= i < keys.len() && fns[#[trigger] keys[i]] == f && (name == keys[i]
                                || (parsed.aliases@.contains_key(name) && parsed.aliases@[name]
                                == keys[i]))
                },
                Err(fault) => exists|i: int|
                    0 <= i < keys.len() && override_fault(
                        list,
                        parsed.aliases@,
                        #[trigger] keys[i],
                    ) == Some(fault) && forall|j: int|
                        0 <= j < i ==> override_fault(list, parsed.aliases@, #[trigger] keys[j])
                            is None,
            }
        }),
    decreases keys.len(),
{
    let list = creations(parsed.create_commands@);
    if keys.len() > 0 {
        let short = keys.drop_last();
        let n = keys.len() - 1;
        let k = keys.last();
        lemma_user_entries(parsed, short, fns);
        assert(k == keys[n]);
        assert forall|i: int| 0 <= i < n implies #[trigger] keys[i] == short[i] by {}
        match user_entries(parsed, short, fns) {
            Err(fault) => {
                let i = choose|i: int|
                    0 <= i < short.len() && override_fault(
                        list,
                        parsed.aliases@,
                        #[trigger] short[i],
                    ) == Some(fault) && forall|j: int|
                        0 <= j < i ==> override_fault(list, parsed.aliases@, #[trigger] short[j])
                            is None;
                assert(keys[i] == short[i]);
                assert forall|j: int| 0 <= j < i implies override_fault(
                    list,
                    parsed.aliases@,
                    #[trigger] keys[j],
                ) is None by {
                    assert(keys[j] == short[j]);
                }
            },
            Ok(before) => {
                assert forall|j: int| 0 <= j < n implies override_fault(
                    list,
                    parsed.aliases@,
                    #[trigger] keys[j],
                ) is None by {
                    assert(keys[j] == short[j]);
                }
                if override_fault(list, parsed.aliases@, k) is None {
                    let others = answered_by(parsed.other_names(k), fns[k]);
                    let entries = before.push((k, fns[k])) + others;
                    assert forall|name: Seq<char>, f: Seq<char>| #[trigger]
                        entries.contains((name, f)) <==> exists|i: int|
                        0 <= i < keys.len() && fns[#[trigger] keys[i]] == f && (name == keys[i] || (
                        parsed.aliases@.contains_key(name) && parsed.aliases@[name] == keys[i])) by {
                        lemma_one_override(parsed, before, k, fns[k], name, f);
                        if before.contains((name, f)) {
                            let i = choose|i: int|
                                0 <= i < short.len() && fns[#[trigger] short[i]] == f && (name
                                    == short[i] || (parsed.aliases@.contains_key(name)
                                    && parsed.aliases@[name] == short[i]));
                            assert(keys[i] == short[i]);
                        }
                        if exists|i: int|
                            0 <= i < keys.len() && fns[#[trigger] keys[i]] == f && (name == keys[i]
                                || (parsed.aliases@.contains_key(name) && parsed.aliases@[name]
                                == keys[i])) {
                            let i = choose|i: int|
                                0 <= i < keys.len() && fns[#[trigger] keys[i]] == f && (name
                                    == keys[i] || (parsed.aliases@.contains_key(name)
                                    && parsed.aliases@[name] == keys[i]));
                            if i < n {
                                assert(short[i] == keys[i]);
                            }
                        }
                    }
                }
            },
        }
    }
}

proof fn lemma_one_override(
    parsed: &ParsedSpec,
    before: Seq<(Seq<char>, Seq<char>)>,
    k: Seq<char>,
    function: Seq<char>,
    name: Seq<char>,
    f: Seq<char>,
)
    requires
        parsed.wf(),
    ensures
        (before.push((k, function)) + answered_by(parsed.other_names(k), function)).contains(
            (name, f),
        ) <==> before.contains((name, f)) || (f == function && (name == k || (
        parsed.aliases@.contains_key(name) && parsed.aliases@[name] == k))),
{
    let names = parsed.other_names(k);
    let others = answered_by(names, function);
    let entries = before.push((k, function)) + others;
    lemma_other_names(parsed, k, name);
    assert(others.len() == names.len());
    if before.contains((name, f)) {
        let j = choose|j: int| 0 <= j < before.len() && before[j] == (name, f);
        assert(entries[j] == (name, f));
    }
    if f == function && name == k {
        assert(entries[before.len() as int] == (name, f));
    }
    if f == function && names.contains(name) {
        let j = choose|j: int| 0 <= j < names.len() && names[j] == name;
        assert(others[j] == (name, f));
        assert(entries[before.len() + 1 + j] == (name, f));
    }
    if entries.contains((name, f)) {
        let j = choose|j: int| 0 <= j < entries.len() && entries[j] == (name, f);
        if j < before.len() {
            assert(before[j] == (name, f));
        } else if j > before.len() {
            let i = j - before.len() - 1;
            assert(others[i] == (name, f));
            assert(names[i] == name);
        }
    }
}

/// The user's functions answer exactly what they override and all other names of it, if all of
/// that may be overridden; else the first override that may not is complained of.
pub proof fn law_overrides_answer(parsed: &ParsedSpec, keys: Seq<Seq<char>>, fns: Names)
    requires
        parsed.wf(),
    ensures
        ({
            let list = creations(parsed.create_commands@);
            match user_entries(parsed, keys, fns) {
                Ok(entries) => {
                    &&& forall|i: int|
                        0 <= i < keys.len() ==> override_fault(
                            list,
                            parsed.aliases@,
                            #[trigger] keys[i],
                        ) is None
                    &&& forall|name: Seq<char>, f: Seq<char>| #[trigger]
                        entries.contains((name, f)) <==> exists|i: int|
                            0 <= i < keys.len() && fns[#[trigger] keys[i]] == f && (name == keys[i]
                                || (parsed.aliases@.contains_key(name) && parsed.aliases@[name]
                                == keys[i]))
                },
                Err(fault) => exists|i: int|
                    0 <= i < keys.len() && override_fault(
                        list,
                        parsed.aliases@,
                        #[trigger] keys[i],
                    ) == Some(fault) && forall|j: int|
                        0 <= j < i ==> override_fault(list, parsed.aliases@, #[trigger] keys[j])
                            is None,
            }
        }),
{
    lemma_user_entries(parsed, keys, fns);
}

proof fn lemma_create_entries(keys: Seq<Seq<char>>, hooks: Names) -> (places: Seq<int>)
    ensures
        creating_at(keys, hooks, create_entries(keys, hooks), places),
    decreases keys.len(),
{
    if keys.len() == 0 {
        Seq::empty()
    } else {
        let short = keys.drop_last();
        let n = keys.len() - 1;
        let before = lemma_create_entries(short, hooks);
        let entries = create_entries(short, hooks);
        assert(keys.last() == keys[n]);
        assert forall|i: int| 0 <= i < n implies #[trigger] keys[i] == short[i] by {}
        assert forall|k: int| 0 <= k < before.len() implies keys[#[trigger] before[k]]
            == short[before[k]] by {}
        if keys.last() == "Instance"@ {
            assert(!before.contains(n)) by {
                if before.contains(n) {
                    let k = choose|k: int| 0 <= k < before.len() && before[k] == n;
                    assert(before[k] < n);
                }
            }
            before
        } else {
            let places = before.push(n);
            assert forall|i: int| 0 <= i < keys.len() implies (places.contains(i) <==> (
            #[trigger] keys[i]) != "Instance"@) by {
                if i == n {
                    assert(places[before.len() as int] == i);
                } else {
                    assert(keys[i] == short[i]);
                    if before.contains(i) {
                        let k = choose|k: int| 0 <= k < before.len() && before[k] == i;
                        assert(places[k] == i);
                    }
                    if places.contains(i) {
                        let k = choose|k: int| 0 <= k < places.len() && places[k] == i;
                        assert(before[k] == i);
                    }
                }
            }
            assert forall|k: int| 0 <= k < places.len() implies {
                let h = keys[#[trigger] places[k]];
                let e = create_entries(keys, hooks)[k];
                e.name == "xrCreate"@ + h && e.wrapper == "create_"@ + snake_case(h) && e.hook
                    == hooks[h]
            } by {
                if k < before.len() {
                    assert(places[k] == before[k]);
                    assert(create_entries(keys, hooks)[k] == entries[k]);
                }
            }
            places
        }
    }
}

/// `entries` are those of the creating functions of the handles at `places`, which are all but
/// the instance.
pub open spec fn creating_at(
    keys: Seq<Seq<char>>,
    hooks: Names,
    entries: Seq<CreateParts>,
    places: Seq<int>,
) -> bool {
    &&& in_order(places, keys.len() as int)
    &&& places.len() == entries.len()
    &&& forall|i: int|
        0 <= i < keys.len() ==> (places.contains(i) <==> (#[trigger] keys[i]) != "Instance"@)
    &&& forall|k: int|
        0 <= k < places.len() ==> {
            let h = keys[#[trigger] places[k]];
            let e = entries[k];
            e.name == "xrCreate"@ + h && e.wrapper == "create_"@ + snake_case(h) && e.hook
                == hooks[h]
        }
}

/// Every hooked handle but the instance has one entry for its creating function, with its wrapper
/// and its hook; and every hooked handle has one for its destroying function.
pub proof fn law_entries_of_hooks(keys: Seq<Seq<char>>, hooks: Names)
    ensures
        exists|places: Seq<int>| #[trigger]
            creating_at(keys, hooks, create_entries(keys, hooks), places),
        destroy_entries(keys).len() == keys.len(),
        forall|i: int|
            0 <= i < keys.len() ==> (#[trigger] destroy_entries(keys)[i]).0 == "xrDestroy"@ + keys[i]
                && destroy_entries(keys)[i].1 == keys[i],
        default_hooks_of(keys).len() == keys.len(),
        forall|i: int|
            0 <= i < keys.len() ==> (#[trigger] default_hooks_of(keys)[i]).0 == "Default"@ + keys[i]
                + "Hook"@ && default_hooks_of(keys)[i].1 == keys[i],
{
    let places = lemma_create_entries(keys, hooks);
}

/// The instance is always hooked, by the user's hook if there is one and by the default hook if
/// not; the other hooks are the user's. The instance then comes last.
pub proof fn law_instance_is_hooked(hooks: Names, keys: Seq<Seq<char>>, k: Seq<char>)
    ensures
        with_instance(hooks).contains_key("Instance"@),
        hooks.contains_key("Instance"@) ==> with_instance(hooks) == hooks && keys_with_instance(
            keys,
            hooks,
        ) == keys,
        !hooks.contains_key("Instance"@) ==> with_instance(hooks)["Instance"@]
            == "DefaultInstanceHook"@ && keys_with_instance(keys, hooks) == keys + seq![
            "Instance"@,
        ],
        k != "Instance"@ ==> (with_instance(hooks).contains_key(k) <==> hooks.contains_key(k)) && (
        hooks.contains_key(k) ==> with_instance(hooks)[k] == hooks[k]),
{
    assert(keys.push("Instance"@) =~= keys + seq!["Instance"@]);
}

/// Default hooks are written out for what was added, and for the instance exactly if something
/// was added and the user has no hook for it.
pub proof fn law_written_defaults(hooks: Names, added: Seq<Seq<char>>, k: Seq<char>)
    ensures
        defaulted(hooks, added).contains(k) <==> added.contains(k) || (k == "Instance"@
            && added.len() > 0 && !hooks.contains_key("Instance"@)),
        added.is_prefix_of(defaulted(hooks, added)),
        defaulted(hooks, added).len() <= added.len() + 1,
{
    let all = defaulted(hooks, added);
    assert(added =~= all.subrange(0, added.len() as int));
    if added.contains(k) {
        let j = choose|j: int| 0 <= j < added.len() && added[j] == k;
        assert(all[j] == k);
    }
    if all.len() > added.len() {
        assert(all[added.len() as int] == "Instance"@);
    }
    if all.contains(k) {
        let j = choose|j: int| 0 <= j < all.len() && all[j] == k;
        if j < added.len() {
            assert(added[j] == k);
        }
    }
}

/// A plan names the crate and the instance's hook, answers as the other laws say, and hooks all
/// parents; there is none if a parent is missing or an override may not be.
pub proof fn law_table_is_planned(
    input: TableInput,
    parsed: &ParsedSpec,
    r: Result<TablePlan, TableError>,
)
    requires
        parsed.wf(),
        input.hooks.wf(),
        input.override_fns.wf(),
        call_ensures(plan_table, (input, parsed), r),
    ensures
        ({
            let hooks = with_instance(input.hooks@);
            let keys = keys_with_instance(input.hooks.keys(), input.hooks@);
            let closure = closure_of(parsed.parent_of@, hooks, keys);
            let entries = user_entries(parsed, input.override_fns.keys(), input.override_fns@);
            &&& r is Ok <==> closure is Some && entries is Ok
            &&& closure is None ==> (r matches Err(e) && e is NoParent)
            &&& closure is Some ==> (entries matches Err(f) ==> (r matches Err(e) && e@ == f))
            &&& r matches Ok(plan) ==> {
                let (end, added) = closure->Some_0;
                &&& plan.crate_name@ == input.crate_name@
                &&& plan.instance_data@ == (if input.hooks@.contains_key("Instance"@) {
                    input.hooks@["Instance"@]
                } else {
                    "DefaultInstanceHook"@
                })
                &&& user_pairs(plan.user_overrides@) == entries->Ok_0
                &&& hook_pairs(plan.default_hooks@) == default_hooks_of(
                    defaulted(input.hooks@, added),
                )
                &&& exists|order: Seq<Seq<char>>| #[trigger]
                    lists_hooks(order, end) && create_parts(plan.creates@) == create_entries(
                        order,
                        end,
                    ) && destroy_pairs(plan.destroys@) == destroy_entries(order)
            }
        }),
        forall|order: Seq<Seq<char>>, hooks: Names| #[trigger]
            lists_hooks(order, hooks) ==> order.no_duplicates() && forall|k: Seq<char>| #[trigger]
                order.contains(k) <==> hooks.contains_key(k),
{
}

/// `list` are the facades of the commands at `places`, which are all but that of the instance and
/// those of the handles that are wrapped by hand.
pub open spec fn facades_at(
    commands: Seq<Creation>,
    tokens: Seq<Token>,
    list: Seq<(Seq<char>, Seq<char>)>,
    places: Seq<int>,
    n: int,
) -> bool {
    &&& in_order(places, n)
    &&& places.len() == list.len()
    &&& forall|k: int|
        0 <= k < places.len() ==> {
            let c = commands[#[trigger] places[k]];
            &&& c.name != "xrCreateApiLayerInstance"@
            &&& c.out_handle_ty == "Xr"@ + list[k].0
            &&& c.create_info_ty == "Xr"@ + list[k].1
            &&& !by_hand(tokens, list[k].0)
        }
    &&& forall|i: int|
        0 <= i < n && !places.contains(i) ==> (#[trigger] commands[i]).name
            == "xrCreateApiLayerInstance"@ || exists|handle: Seq<char>|
            commands[i].out_handle_ty == "Xr"@ + handle && #[trigger] by_hand(tokens, handle)
}

/// The handle is named behind the crate, so it is wrapped by hand.
pub open spec fn by_hand(tokens: Seq<Token>, handle: Seq<char>) -> bool {
    exists|i: int|
        1 <= i < tokens.len() && (#[trigger] tokens[i] matches Token::Ident(name) && name@
            == handle)
}

proof fn lemma_facades(commands: Seq<Creation>, tokens: Seq<Token>, n: int) -> (places: Seq<int>)
    requires
        0 <= n <= commands.len(),
    ensures
        facades_of(commands, tokens, n) matches Some(list) ==> facades_at(
            commands,
            tokens,
            list,
            places,
            n,
        ),
    decreases n,
{
    if n <= 0 {
        Seq::empty()
    } else {
        let before = lemma_facades(commands, tokens, n - 1);
        let c = commands[n - 1];
        match facades_of(commands, tokens, n - 1) {
            None => before,
            Some(list) => {
                let handle = without_prefix(c.out_handle_ty, "Xr"@)->Some_0;
                let info = without_prefix(c.create_info_ty, "Xr"@)->Some_0;
                law_cut_and_join(c.out_handle_ty, "Xr"@, handle);
                law_cut_and_join(c.create_info_ty, "Xr"@, info);
                assert(by_hand(tokens, handle) <==> named_in(tokens, handle)) by {
                    if named_in(tokens, handle) {
                        let i = choose|i: int|
                            1 <= i < tokens.len() && (#[trigger] tokens[i]) is Ident
                                && tokens[i]->Ident_0@ == handle;
                        assert(tokens[i] matches Token::Ident(name) && name@ == handle);
                    }
                }
                if facades_of(commands, tokens, n) is Some && facades_of(
                    commands,
                    tokens,
                    n,
                )->Some_0.len() > list.len() {
                    let places = before.push(n - 1);
                    let all = list.push((handle, info));
                    assert(facades_of(commands, tokens, n) == Some(all));
                    assert forall|k: int| 0 <= k < places.len() implies {
                        let d = commands[#[trigger] places[k]];
                        &&& d.name != "xrCreateApiLayerInstance"@
                        &&& d.out_handle_ty == "Xr"@ + all[k].0
                        &&& d.create_info_ty == "Xr"@ + all[k].1
                        &&& !by_hand(tokens, all[k].0)
                    } by {
                        if k < before.len() {
                            assert(places[k] == before[k]);
                        }
                    }
                    assert forall|i: int| 0 <= i < n && !places.contains(i) implies (
                    #[trigger] commands[i]).name == "xrCreateApiLayerInstance"@ || exists|
                        h: Seq<char>,
                    |
                        commands[i].out_handle_ty == "Xr"@ + h && #[trigger] by_hand(tokens, h) by {
                        if i == n - 1 {
                            assert(places[before.len() as int] == i);
                        } else if before.contains(i) {
                            let k = choose|k: int| 0 <= k < before.len() && before[k] == i;
                            assert(places[k] == i);
                        }
                    }
                    places
                } else {
                    before
                }
            },
        }
    }
}

/// Every handle has a facade but the instance and those that are wrapped by hand, in the
/// commands' order. There are none without the name of the crate, and none if what follows it is
/// not a list of names.
pub proof fn law_facades_are_planned(
    tokens: &[Token],
    commands: &[CreateCommand],
    r: Result<Vec<FacadePlan>, FacadeError>,
)
    requires
        call_ensures(gen_facades, (tokens, commands), r),
    ensures
        r == Err::<Vec<FacadePlan>, _>(FacadeError::MissingCrate) <==> tokens@.len() == 0,
        r == Err::<Vec<FacadePlan>, _>(FacadeError::UnexpectedToken) <==> tokens@.len() > 0
            && exists|i: int| 1 <= i < tokens@.len() && !(#[trigger] tokens@[i] is Ident),
        r matches Ok(v) ==> exists|places: Seq<int>| #[trigger]
            facades_at(
                creations(commands@),
                tokens@,
                facade_names(v@),
                places,
                commands@.len() as int,
            ),
{
    let list = creations(commands@);
    let places = lemma_facades(list, tokens@, list.len() as int);
}

/// If the facades cannot be planned though the input is a list of names, then some type has no
/// prefix.
pub proof fn law_facades_need_prefixes(commands: Seq<Creation>, tokens: Seq<Token>, n: int)
    requires
        0 <= n <= commands.len(),
        facades_of(commands, tokens, n) is None,
    ensures
        exists|i: int|
            0 <= i < n && (#[trigger] commands[i]).name != "xrCreateApiLayerInstance"@ && (
            !has_prefix(commands[i].out_handle_ty, "Xr"@) || !has_prefix(
                commands[i].create_info_ty,
                "Xr"@,
            )),
    decreases n,
{
    if facades_of(commands, tokens, n - 1) is None {
        law_facades_need_prefixes(commands, tokens, n - 1);
    } else {
        assert(commands[n - 1].name != "xrCreateApiLayerInstance"@);
    }
}

/// An input that cannot be read is complained of as such. Any other is planned from what it says,
/// for the crate that it names.
pub proof fn law_table_is_generated(
    tokens: &[Token],
    parsed: &ParsedSpec,
    r: Result<TablePlan, TableError>,
)
    requires
        parsed.wf(),
        call_ensures(gen_override_table, (tokens, parsed), r),
    ensures
        table_input_of(tokens@) matches Err(e) ==> (r matches Err(f) && f@ == TableFault::Tokens(
            e,
        )),
        table_input_of(tokens@) matches Ok(fields) ==> planned_from(
            tokens@[0]->Ident_0@,
            fields,
            parsed,
            r,
        ),
        r matches Ok(plan) ==> plan.crate_name@ == tokens@[0]->Ident_0@,
        r matches Err(f) ==> (f@ is Tokens ==> table_input_of(tokens@) is Err),
{
    match table_input_of(tokens@) {
        Ok(fields) => {
            let input = choose|input: TableInput| #[trigger]
                planned(input, parsed, r) && input.hooks.wf() && input.override_fns.wf()
                    && input.crate_name@ == tokens@[0]->Ident_0@ && fields == (Fields {
                    hooks: input.hooks@,
                    override_fns: input.override_fns@,
                });
            lemma_user_entries(parsed, input.override_fns.keys(), input.override_fns@);
        },
        Err(_) => {},
    }
}

/// The entry of a creating function is called after its handle, and so is its wrapper.
pub proof fn law_create_entry_is_made(handle: &str, snake: &str, hook: &str, r: CreateEntry)
    requires
        call_ensures(make_create_entry, (handle, snake, hook), r),
    ensures
        r.name@ == "xrCreate"@ + handle@,
        r.wrapper@ == "create_"@ + snake@,
        r.hook@ == hook@,
{
}

} // verus!
