use xr_passthrough_layer::codegen::closure::{close_hooks, find_closure};
use xr_passthrough_layer::codegen::model::{
    check_signature, Command, CreateCommand, Signature, Type,
};
use xr_passthrough_layer::codegen::parsed::{ParsedSpec, SpecError};
use xr_passthrough_layer::codegen::plan::{
    find_source, gen_create_wrapper, impl_create, make_factory, name_wrapper,
    split_extension_names, split_tag, FnSource,
};
use xr_passthrough_layer::codegen::spec;
use xr_passthrough_layer::codegen::spec::SignatureParts as Part;
use xr_passthrough_layer::codegen::table::{
    gen_facades, gen_override_table, make_create_entry, FacadeError, TableError, TablePlan,
};
use xr_passthrough_layer::codegen::tokens::{
    delimiter_start, parse_ident_map, parse_table_input, Cursor, Delimiter, Token, TokenError,
};
use xr_passthrough_layer::textmap::TextMap;

fn s(text: &str) -> String {
    text.to_string()
}

fn ident(name: &str) -> Token {
    Token::Ident(s(name))
}

/// Words, single marks, and `{`..`}` around groups.
fn tokens(text: &str) -> Vec<Token> {
    let mut stack: Vec<Vec<Token>> = vec![Vec::new()];
    for word in text.split_whitespace() {
        match word {
            "{" => stack.push(Vec::new()),
            "}" => {
                let inner = stack.pop().unwrap();
                stack.last_mut().unwrap().push(Token::Group(Delimiter::Brace, inner));
            }
            _ => {
                let first = word.chars().next().unwrap();
                let token = if first.is_alphabetic() || first == '$' {
                    ident(word)
                } else {
                    Token::Punct(first)
                };
                stack.last_mut().unwrap().push(token);
            }
        }
    }
    stack.pop().unwrap()
}

fn entries(map: &TextMap) -> Vec<(String, String)> {
    (0..map.len()).map(|i| map.entry(i)).map(|(k, v)| (k.clone(), v.clone())).collect()
}

fn map(list: &[(&str, &str)]) -> TextMap {
    let mut m = TextMap::new();
    for (k, v) in list {
        m.insert(s(k), s(v));
    }
    m
}

#[test]
fn maps_keep_the_order_of_their_keys() {
    let mut m = map(&[("b", "1"), ("a", "2")]);
    assert_eq!(m.insert(s("b"), s("3")), Some(s("1")));
    assert_eq!(m.insert(s("c"), s("4")), None);
    assert_eq!(entries(&m), vec![(s("b"), s("3")), (s("a"), s("2")), (s("c"), s("4"))]);
    assert_eq!(m.get("a"), Some(s("2")));
    assert_eq!(m.get("x"), None);
    assert!(m.contains_key("c"));
}

#[test]
fn delimiters() {
    assert_eq!(delimiter_start(Delimiter::Parenthesis), '(');
    assert_eq!(delimiter_start(Delimiter::Bracket), '[');
    assert_eq!(delimiter_start(Delimiter::Brace), '{');
    assert_eq!(delimiter_start(Delimiter::Invisible), '\0');
}

#[test]
fn cursor_takes_what_it_expects() {
    let list = tokens("a : { b } c");
    let mut c = Cursor::new(&list);
    assert_eq!(c.expect_ident().unwrap(), "a");
    assert!(c.expect_punct(':').is_ok());
    assert_eq!(c.expect_group(Delimiter::Brace).unwrap().len(), 1);
    assert!(matches!(c.expect_punct(','), Err(TokenError::NotPunct(','))));
    assert!(matches!(c.expect_ident(), Err(TokenError::End)));
    assert!(matches!(c.expect_punct(','), Err(TokenError::End)));
    assert!(matches!(c.expect_group(Delimiter::Brace), Err(TokenError::End)));
}

#[test]
fn cursor_refuses_what_it_does_not_expect() {
    let list = tokens(": { b } a");
    let mut c = Cursor::new(&list);
    assert!(matches!(c.expect_ident(), Err(TokenError::NotIdent)));
    assert!(matches!(c.expect_group(Delimiter::Bracket), Err(TokenError::OtherGroup('{'))));
    assert!(matches!(
        c.expect_group(Delimiter::Brace),
        Err(TokenError::NotGroup(Delimiter::Brace))
    ));
}

#[test]
fn ident_maps() {
    let mut m = TextMap::new();
    parse_ident_map(&tokens("a : b , c : d ,"), &mut m).unwrap();
    parse_ident_map(&tokens(""), &mut m).unwrap();
    parse_ident_map(&tokens("e : f"), &mut m).unwrap();
    assert_eq!(entries(&m), vec![(s("a"), s("b")), (s("c"), s("d")), (s("e"), s("f"))]);
}

#[test]
fn malformed_ident_maps() {
    let parse = |text: &str| parse_ident_map(&tokens(text), &mut TextMap::new()).unwrap_err();
    assert!(matches!(parse(", a"), TokenError::NotIdent));
    assert!(matches!(parse("a"), TokenError::End));
    assert!(matches!(parse("a , b"), TokenError::NotPunct(':')));
    assert!(matches!(parse("a :"), TokenError::End));
    assert!(matches!(parse("a : ,"), TokenError::NotIdent));
    assert!(matches!(parse("a : b c"), TokenError::NotPunct(',')));
    match parse("a : b , a : c") {
        TokenError::Duplicate(value) => assert_eq!(value, "b"),
        other => panic!("{:?}", other),
    }
}

#[test]
fn table_input() {
    let input = parse_table_input(&tokens(
        "$crate ; hooks : { Session : SessionData } , override_fns : { xrA : a , xrB : b }",
    ))
    .unwrap();
    assert_eq!(input.crate_name, "$crate");
    assert_eq!(entries(&input.hooks), vec![(s("Session"), s("SessionData"))]);
    assert_eq!(entries(&input.override_fns), vec![(s("xrA"), s("a")), (s("xrB"), s("b"))]);
}

#[test]
fn malformed_table_input() {
    let parse = |text: &str| parse_table_input(&tokens(text)).unwrap_err();
    assert!(matches!(parse(""), TokenError::End));
    assert!(matches!(parse(";"), TokenError::NotIdent));
    assert!(matches!(parse("c"), TokenError::End));
    assert!(matches!(parse("c ,"), TokenError::NotPunct(';')));
    assert!(matches!(parse("c ; hooks"), TokenError::End));
    assert!(matches!(parse("c ; hooks : x"), TokenError::NotGroup(Delimiter::Brace)));
    assert!(matches!(parse("c ; hooks : { } ;"), TokenError::NotPunct(',')));
    match parse("c ; other : { }") {
        TokenError::UnknownField(name) => assert_eq!(name, "other"),
        other => panic!("{:?}", other),
    }
}

fn ty(name: &str) -> Part {
    Part::Type(s(name))
}

fn name(text: &str) -> Part {
    Part::Name(s(text))
}

fn other(text: &str) -> Part {
    Part::Other(s(text))
}

#[test]
fn types_of_declarations() {
    let read = |parts: Vec<Part>| Type::from_parts(&parts).map(|t| t.to_text());
    assert_eq!(read(vec![ty("XrSession"), name("session")]), Some(Some(s("XrSession"))));
    assert_eq!(
        read(vec![ty("XrSession"), other("*"), name("session")]),
        Some(Some(s("*mut XrSession")))
    );
    assert_eq!(
        read(vec![other("const"), ty("XrInfo"), other("*"), name("info")]),
        Some(Some(s("*const XrInfo")))
    );
    assert_eq!(
        read(vec![ty("char"), name("text"), other("["), Part::Enum(s("N"))]),
        Some(Some(s("*mut char")))
    );
    assert_eq!(read(vec![other("const"), ty("char"), name("c")]), Some(None));
}

#[test]
fn malformed_declarations() {
    for parts in [
        vec![],
        vec![ty("XrSession")],
        vec![other("struct"), ty("X"), name("x")],
        vec![ty("X"), other("&"), name("x")],
        vec![ty("X"), name("x"), other("]")],
        vec![ty("X"), name("x"), name("y")],
        vec![name("x")],
    ] {
        assert!(Type::from_parts(&parts).is_none());
        assert!(Signature::from_parts(&parts).is_none());
    }
    assert!(Signature::from_parts(&[ty("X"), other("*")]).is_none());
}

#[test]
fn types_are_taken_apart() {
    let t = Type::from_parts(&[other("const"), ty("XrInfo"), other("*"), name("i")]).unwrap();
    assert_eq!(t.base(), "XrInfo");
    let p = t.as_const().unwrap();
    assert!(t.as_ptr().is_none());
    assert!(t.as_base().is_none());
    let b = p.as_ptr().unwrap();
    assert!(p.as_const().is_none());
    assert_eq!(b.as_base(), Some("XrInfo"));
    let sig = Signature::from_parts(&[ty("XrA"), other("*"), name("a")]).unwrap();
    assert_eq!(sig.to_text(), Some(s("a: *mut XrA")));
}

fn sig(parts: Vec<Part>) -> spec::Signature {
    spec::Signature { parts }
}

fn create(command: &str, parent: &str, info: &str, handle: &str) -> spec::Command {
    spec::Command {
        proto: Some(sig(vec![ty("XrResult"), name(command)])),
        param: Some(vec![
            sig(vec![ty(parent), name("parent")]),
            sig(vec![other("const"), ty(info), other("*"), name("info")]),
            sig(vec![ty(handle), other("*"), name("out")]),
        ]),
        name: None,
        alias: None,
    }
}

fn alias(command: &str, of: &str) -> spec::Command {
    spec::Command { proto: None, param: None, name: Some(s(command)), alias: Some(s(of)) }
}

fn handle(name: &str, parent: Option<&str>) -> spec::Type {
    spec::Type {
        category: Some(s("handle")),
        parent: parent.map(s),
        parts: vec![spec::TypePart::Other, spec::TypePart::Name(s(name))],
    }
}

fn registry() -> spec::Spec {
    spec::Spec {
        sections: vec![
            spec::Section::Comment,
            spec::Section::Types {
                types: vec![
                    handle("XrInstance", None),
                    handle("XrSession", Some("XrInstance")),
                    handle("XrSpace", Some("XrSession")),
                    handle("XrPassthroughHTC", Some("XrSession")),
                    handle("XrTwice", Some("XrSession")),
                    handle("XrDeep", Some("XrSpace")),
                    spec::Type { category: Some(s("basetype")), parent: None, parts: vec![] },
                ],
            },
            spec::Section::Commands {
                command: vec![
                    create("xrCreateSession", "XrInstance", "XrSessionCreateInfo", "XrSession"),
                    create("xrCreateSpace", "XrSession", "XrSpaceCreateInfo", "XrSpace"),
                    create(
                        "xrCreatePassthroughHTC",
                        "XrSession",
                        "XrPassthroughCreateInfoHTC",
                        "XrPassthroughHTC",
                    ),
                    create("xrCreateTwiceA", "XrSession", "XrTwiceInfo", "XrTwice"),
                    create("xrCreateTwiceB", "XrSession", "XrTwiceInfo", "XrTwice"),
                    create("xrCreateDeep", "XrSession", "XrDeepInfo", "XrDeep"),
                    create("xrCreateSceneMSFT", "XrSession", "XrX", "XrNobody"),
                    create("xrDestroySession", "XrInstance", "XrX", "XrSession"),
                    create("xrCreateRequest", "XrSession", "XrX", "XrAsyncRequestIdFB"),
                    alias("xrCreateSpaceKHR", "xrCreateSpace"),
                    alias("xrLocateSpacesKHR", "xrLocateSpaces"),
                    spec::Command {
                        proto: Some(sig(vec![
                            ty("XrResult"),
                            name("xrCreateApiLayerInstance"),
                        ])),
                        param: Some(vec![]),
                        name: None,
                        alias: None,
                    },
                ],
            },
            spec::Section::Extensions {
                extension: vec![spec::Extension {
                    name: s("XR_HTC_passthrough"),
                    require: vec![spec::ExtensionRequire {
                        command: vec![spec::ExtensionCommand {
                            name: s("xrCreatePassthroughHTC"),
                        }],
                    }],
                }],
            },
        ],
    }
}

fn parsed() -> ParsedSpec {
    ParsedSpec::build(&registry()).unwrap()
}

#[test]
fn names_of_commands() {
    let c = create("xrCreateSession", "XrInstance", "XrSessionCreateInfo", "XrSession");
    assert_eq!(c.name(), "xrCreateSession");
    assert_eq!(alias("xrA", "xrB").name(), "xrA");
    let none = spec::Command { proto: None, param: None, name: None, alias: None };
    assert!(none.find_name().is_none());
}

#[test]
fn tables_of_the_registry() {
    let p = parsed();
    let created: Vec<&str> = p.create_commands.iter().map(|c| c.name.as_str()).collect();
    assert_eq!(
        created,
        vec![
            "xrCreateSession",
            "xrCreateSpace",
            "xrCreatePassthroughHTC",
            "xrCreateApiLayerInstance",
        ]
    );
    assert_eq!(p.create_commands[1].parent_ty, "XrSession");
    assert_eq!(p.create_commands[1].create_info_ty, "XrSpaceCreateInfo");
    assert_eq!(p.create_commands[1].out_handle_ty, "XrSpace");
    assert_eq!(
        entries(&p.parent_of),
        vec![
            (s("XrSession"), s("XrInstance")),
            (s("XrSpace"), s("XrSession")),
            (s("XrPassthroughHTC"), s("XrSession")),
            (s("XrTwice"), s("XrSession")),
            (s("XrDeep"), s("XrSpace")),
        ]
    );
    assert_eq!(
        entries(&p.command_to_extension),
        vec![(s("xrCreatePassthroughHTC"), s("XR_HTC_passthrough"))]
    );
    assert_eq!(
        entries(&p.aliases),
        vec![
            (s("xrCreateSpaceKHR"), s("xrCreateSpace")),
            (s("xrLocateSpacesKHR"), s("xrLocateSpaces")),
        ]
    );
    assert_eq!(p.aliases_of("xrLocateSpaces"), vec![s("xrLocateSpacesKHR")]);
    assert!(p.aliases_of("xrCreateSession").is_empty());
}

#[test]
fn malformed_registries() {
    let with_types = |types: Vec<spec::Type>| spec::Spec {
        sections: vec![spec::Section::Types { types }],
    };
    let with_command = |command: spec::Command| spec::Spec {
        sections: vec![spec::Section::Commands { command: vec![command] }],
    };
    let error = |spec: spec::Spec| ParsedSpec::build(&spec).unwrap_err();
    let mut nameless = handle("X", Some("Y"));
    nameless.parts.clear();
    assert_eq!(error(with_types(vec![nameless])), SpecError::HandleWithoutName);
    assert_eq!(error(with_types(vec![handle("X", None)])), SpecError::HandleWithoutParent);
    let c = || create("xrCreateX", "XrY", "XrInfo", "XrX");
    assert_eq!(error(with_command(c())), SpecError::MissingParent);
    let none = spec::Command { proto: None, param: None, name: None, alias: None };
    assert_eq!(error(with_command(none)), SpecError::MalformedCommand);
    let no_proto = spec::Command { proto: None, name: Some(s("xrCreateX")), ..c() };
    assert_eq!(error(with_command(no_proto)), SpecError::NoProto);
    let no_params = spec::Command { param: None, ..c() };
    assert_eq!(error(with_command(no_params)), SpecError::NoParams);
    let bad_proto = spec::Command { proto: Some(sig(vec![name("xrCreateX")])), ..c() };
    assert_eq!(error(with_command(bad_proto)), SpecError::MalformedCommand);
    let bad_param = spec::Command { param: Some(vec![sig(vec![])]), ..c() };
    assert_eq!(error(with_command(bad_param)), SpecError::MalformedCommand);
}

fn command(proto: &str, params: Vec<Vec<Part>>) -> Command {
    Command {
        proto: Signature::from_parts(&[ty(proto), name("xrCreateX")]).unwrap(),
        params: params.iter().map(|p| Signature::from_parts(p).unwrap()).collect(),
    }
}

fn good_params() -> Vec<Vec<Part>> {
    vec![
        vec![ty("XrP"), name("p")],
        vec![other("const"), ty("XrI"), other("*"), name("i")],
        vec![ty("XrX"), other("*"), name("x")],
    ]
}

#[test]
fn signatures_that_create() {
    let parents = map(&[("XrX", "XrP"), ("XrZ", "XrQ")]);
    let c = check_signature(&command("XrResult", good_params()), &parents).unwrap();
    assert_eq!(c.name, "xrCreateX");
    assert_eq!((c.parent_ty, c.create_info_ty, c.out_handle_ty), (s("XrP"), s("XrI"), s("XrX")));
    let instance = Command {
        proto: Signature::from_parts(&[ty("X"), name("xrCreateApiLayerInstance")]).unwrap(),
        params: vec![],
    };
    let c = check_signature(&instance, &parents).unwrap();
    assert_eq!((c.parent_ty, c.create_info_ty, c.out_handle_ty), (s(""), s(""), s("")));
}

#[test]
fn signatures_that_do_not_create() {
    let parents = map(&[("XrX", "XrP"), ("XrZ", "XrQ")]);
    let check = |c: Command| check_signature(&c, &parents);
    assert!(check(command("XrVoid", good_params())).is_none());
    assert!(check(command("XrResult", vec![])).is_none());
    let replaced = |i: usize, parts: Vec<Part>| {
        let mut params = good_params();
        params[i] = parts;
        command("XrResult", params)
    };
    assert!(check(replaced(0, vec![ty("char"), name("p")])).is_none());
    assert!(check(replaced(0, vec![ty("XrP"), other("*"), name("p")])).is_none());
    assert!(check(replaced(1, vec![ty("XrI"), other("*"), name("i")])).is_none());
    assert!(check(replaced(2, vec![ty("XrX"), name("x")])).is_none());
    assert!(check(replaced(2, vec![ty("XrZ"), other("*"), name("x")])).is_none());
    assert!(check(replaced(2, vec![ty("XrAsyncRequestIdFB"), other("*"), name("x")])).is_none());
}

#[test]
fn parents_that_are_missing() {
    let parents = map(&[
        ("XrA", "XrInstance"),
        ("XrB", "XrA"),
        ("XrC", "XrD"),
        ("XrD", "XrC"),
        ("XrE", "A"),
        ("XrG", "XrF"),
    ]);
    for h in ["Instance", "A", "B", "C"] {
        assert!(close_hooks(&mut map(&[(h, "1")]), &parents).is_some());
    }
    for h in ["E", "F", "G"] {
        assert!(close_hooks(&mut map(&[(h, "1")]), &parents).is_none());
    }
    let mut hooks = map(&[("C", "1"), ("D", "2")]);
    assert!(find_closure(&mut hooks, &parents).is_empty());
    assert_eq!(entries(&hooks), vec![(s("C"), s("1")), (s("D"), s("2"))]);
}

#[test]
fn closure_adds_a_shared_parent_once() {
    let parents = map(&[
        ("XrSession", "XrInstance"),
        ("XrSpace", "XrSession"),
        ("XrSwapchain", "XrSession"),
        ("XrAnchor", "XrSpace"),
    ]);
    let mut hooks = map(&[("Space", "P"), ("Swapchain", "W"), ("Anchor", "A")]);
    assert_eq!(find_closure(&mut hooks, &parents), vec![s("Session"), s("Instance")]);
    let mut hooks = map(&[("Swapchain", "W"), ("Anchor", "A")]);
    assert_eq!(
        find_closure(&mut hooks, &parents),
        vec![s("Session"), s("Space"), s("Instance")]
    );
}

#[test]
fn closure_of_closed_hooks_adds_nothing() {
    let parents = parsed().parent_of;
    let mut hooks = map(&[
        ("Session", "SessionData"),
        ("Instance", "InstanceData"),
        ("PassthroughHTC", "PassthroughData"),
    ]);
    let before = entries(&hooks);
    assert!(find_closure(&mut hooks, &parents).is_empty());
    assert_eq!(entries(&hooks), before);
}

#[test]
fn closure_hooks_all_parents() {
    let parents = parsed().parent_of;
    let mut hooks = map(&[("Deep", "D"), ("Instance", "I")]);
    let added = find_closure(&mut hooks, &parents);
    assert_eq!(added, vec![s("Space"), s("Session")]);
    let want = vec![
        (s("Deep"), s("D")),
        (s("Instance"), s("I")),
        (s("Space"), s("DefaultSpaceHook")),
        (s("Session"), s("DefaultSessionHook")),
    ];
    assert_eq!(entries(&hooks), want);
    assert!(find_closure(&mut hooks, &parents).is_empty());
    assert_eq!(entries(&hooks), want);
}

#[test]
fn closure_keeps_the_hooks_of_the_user() {
    let parents = map(&[("XrSwapchain", "XrSession"), ("XrSession", "XrInstance")]);
    let mut hooks = map(&[("Swapchain", "W"), ("Instance", "I")]);
    assert_eq!(find_closure(&mut hooks, &parents), vec![s("Session")]);
    assert_eq!(
        entries(&hooks),
        vec![
            (s("Swapchain"), s("W")),
            (s("Instance"), s("I")),
            (s("Session"), s("DefaultSessionHook")),
        ]
    );
    let parents = parsed().parent_of;
    let mut hooks = map(&[("Deep", "D"), ("Session", "Mine"), ("Instance", "I")]);
    assert_eq!(find_closure(&mut hooks, &parents), vec![s("Space")]);
    assert_eq!(hooks.get("Session"), Some(s("Mine")));
}

#[test]
fn closure_adds_the_instance_if_it_is_not_hooked() {
    let parents = parsed().parent_of;
    let mut hooks = map(&[("Deep", "D")]);
    let added = find_closure(&mut hooks, &parents);
    assert_eq!(added, vec![s("Space"), s("Session"), s("Instance")]);
    assert_eq!(hooks.get("Instance"), Some(s("DefaultInstanceHook")));
}

fn creation(name: &str, parent: &str, info: &str, handle: &str) -> CreateCommand {
    CreateCommand {
        name: s(name),
        parent_ty: s(parent),
        create_info_ty: s(info),
        out_handle_ty: s(handle),
    }
}

#[test]
fn wrappers_of_creating_commands() {
    let w = gen_create_wrapper(&parsed().create_commands).unwrap();
    let names: Vec<&str> = w.iter().map(|w| w.our_name.as_str()).collect();
    assert_eq!(
        names,
        vec![
            "create_session",
            "create_space",
            "create_passthrough_htc",
            "create_api_layer_instance",
        ]
    );
    let n = w[2].names.as_ref().unwrap();
    assert_eq!(
        (n.handle.as_str(), n.parent.as_str(), n.create_info.as_str()),
        ("PassthroughHTC", "Session", "PassthroughCreateInfoHTC")
    );
    assert!(w[3].names.is_none());
}

#[test]
fn wrapper_names_need_prefixes() {
    assert!(gen_create_wrapper(&[creation("createX", "XrA", "XrB", "XrC")]).is_none());
    assert!(gen_create_wrapper(&[creation("xrCreateX", "A", "XrB", "XrC")]).is_none());
    let c = creation("x", "A", "B", "C");
    assert!(name_wrapper(&c, s("create_api_layer_instance")).unwrap().names.is_none());
    assert!(name_wrapper(&c, s("create_x")).is_none());
}

#[test]
fn tags_of_extensions() {
    assert_eq!(split_tag("HTC_passthrough_2"), Some(s("HTC")));
    assert_eq!(split_tag("HTC"), None);
    assert_eq!(
        split_extension_names("xrCreatePassthroughHTC", "XR_HTC_passthrough"),
        Some((s("HTC_passthrough"), s("CreatePassthrough")))
    );
    assert_eq!(split_extension_names("xrCreatePassthrough", "XR_HTC_passthrough"), None);
    assert_eq!(split_extension_names("xrCreatePassthroughHTC", "HTC_passthrough"), None);
    assert_eq!(split_extension_names("xrCreatePassthroughHTC", "XR_HTC"), None);
    assert_eq!(split_extension_names("CreatePassthroughHTC", "XR_HTC_passthrough"), None);
}

#[test]
fn sources_of_functions() {
    let exts = map(&[("xrCreatePassthroughHTC", "XR_HTC_passthrough")]);
    match find_source("xrCreatePassthroughHTC", &exts) {
        Some(FnSource::Extension { ext, our_name }) => {
            assert_eq!(ext, "htc_passthrough");
            assert_eq!(our_name, "create_passthrough");
        }
        other => panic!("{:?}", other),
    }
    match find_source("xrCreateActionSet", &exts) {
        Some(FnSource::Core { our_name }) => assert_eq!(our_name, "create_action_set"),
        other => panic!("{:?}", other),
    }
    assert!(find_source("CreateActionSet", &exts).is_none());
}

#[test]
fn factories_of_creating_commands() {
    let f = impl_create(&parsed()).unwrap();
    assert_eq!(f.len(), 3);
    assert_eq!(f[0].factory_name, "SessionFactory");
    assert_eq!(f[0].names.handle, "Session");
    assert!(matches!(&f[0].source, FnSource::Core { our_name } if our_name == "create_session"));
    assert_eq!(f[2].factory_name, "PassthroughHTCFactory");
    let core = FnSource::Core { our_name: s("x") };
    assert!(make_factory(&creation("xrX", "XrA", "XrB", "C"), core).is_none());
}

#[test]
fn facades_of_handles() {
    let commands = parsed().create_commands;
    let f = gen_facades(&tokens("$crate Session Instance"), &commands).unwrap();
    let names: Vec<(&str, &str)> =
        f.iter().map(|f| (f.handle.as_str(), f.create_info.as_str())).collect();
    assert_eq!(
        names,
        vec![("Space", "SpaceCreateInfo"), ("PassthroughHTC", "PassthroughCreateInfoHTC")]
    );
    assert_eq!(gen_facades(&[], &commands).unwrap_err(), FacadeError::MissingCrate);
    assert_eq!(
        gen_facades(&tokens("$crate Session ,"), &commands).unwrap_err(),
        FacadeError::UnexpectedToken
    );
    let bad = [creation("xrCreateX", "XrA", "XrB", "C")];
    assert_eq!(gen_facades(&tokens("$crate"), &bad).unwrap_err(), FacadeError::Malformed);
}

fn table(text: &str) -> Result<TablePlan, TableError> {
    gen_override_table(&tokens(text), &parsed())
}

#[test]
fn table_of_the_layer() {
    let plan = table(
        "$crate ; hooks : { Session : SessionData , Instance : InstanceData , PassthroughHTC : PassthroughData } , override_fns : { xrEndSession : end_session , xrLocateSpaces : locate }",
    )
    .unwrap();
    assert_eq!(plan.crate_name, "$crate");
    assert_eq!(plan.instance_data, "InstanceData");
    let user: Vec<(&str, &str)> =
        plan.user_overrides.iter().map(|e| (e.name.as_str(), e.function.as_str())).collect();
    assert_eq!(
        user,
        vec![
            ("xrEndSession", "end_session"),
            ("xrLocateSpaces", "locate"),
            ("xrLocateSpacesKHR", "locate"),
        ]
    );
    let creates: Vec<(&str, &str, &str)> = plan
        .creates
        .iter()
        .map(|e| (e.name.as_str(), e.wrapper.as_str(), e.hook.as_str()))
        .collect();
    assert_eq!(
        creates,
        vec![
            ("xrCreateSession", "create_session", "SessionData"),
            ("xrCreatePassthroughHTC", "create_passthrough_htc", "PassthroughData"),
        ]
    );
    let destroys: Vec<(&str, &str)> =
        plan.destroys.iter().map(|e| (e.name.as_str(), e.handle.as_str())).collect();
    assert_eq!(
        destroys,
        vec![
            ("xrDestroySession", "Session"),
            ("xrDestroyInstance", "Instance"),
            ("xrDestroyPassthroughHTC", "PassthroughHTC"),
        ]
    );
    assert!(plan.default_hooks.is_empty());
}

#[test]
fn table_with_parents_that_were_not_hooked() {
    let plan = table("$crate ; hooks : { Space : S }").unwrap();
    assert_eq!(plan.instance_data, "DefaultInstanceHook");
    let hooks: Vec<(&str, &str)> =
        plan.default_hooks.iter().map(|h| (h.name.as_str(), h.handle.as_str())).collect();
    assert_eq!(
        hooks,
        vec![("DefaultSessionHook", "Session"), ("DefaultInstanceHook", "Instance")]
    );
    assert_eq!(plan.creates.len(), 2);
    assert_eq!(plan.destroys.len(), 3);
}

#[test]
fn table_that_keeps_the_instance_of_the_user() {
    let plan = table("$crate ; hooks : { Space : S , Instance : I }").unwrap();
    assert_eq!(plan.instance_data, "I");
    let hooks: Vec<(&str, &str)> =
        plan.default_hooks.iter().map(|h| (h.name.as_str(), h.handle.as_str())).collect();
    assert_eq!(hooks, vec![("DefaultSessionHook", "Session")]);
}

#[test]
fn table_without_a_hook_of_the_instance() {
    let plan = table("$crate ; hooks : { Session : S }").unwrap();
    assert_eq!(plan.instance_data, "DefaultInstanceHook");
    assert!(plan.default_hooks.is_empty());
    assert_eq!(plan.creates.len(), 1);
    assert_eq!(plan.destroys.len(), 2);
}

#[test]
fn tables_that_are_refused() {
    assert!(matches!(table("$crate"), Err(TableError::Tokens(TokenError::End))));
    assert!(matches!(table("$crate ; hooks : { Nobody : N }"), Err(TableError::NoParent)));
    match table("$crate ; override_fns : { xrCreateSession : f }") {
        Err(TableError::GeneratedCreate(name)) => assert_eq!(name, "xrCreateSession"),
        other => panic!("{:?}", other),
    }
    match table("$crate ; override_fns : { xrLocateSpacesKHR : f }") {
        Err(TableError::OtherName(name, of)) => {
            assert_eq!((name.as_str(), of.as_str()), ("xrLocateSpacesKHR", "xrLocateSpaces"))
        }
        other => panic!("{:?}", other),
    }
    match table("$crate ; override_fns : { xrDestroySpace : f }") {
        Err(TableError::GeneratedDestroy(name)) => assert_eq!(name, "xrDestroySpace"),
        other => panic!("{:?}", other),
    }
    assert!(table("$crate ; override_fns : { xrDestroyTwice : f }").is_ok());
}

#[test]
fn entry_of_a_creating_function() {
    let e = make_create_entry("ActionSet", "action_set", "H");
    assert_eq!(
        (e.name.as_str(), e.wrapper.as_str(), e.hook.as_str()),
        ("xrCreateActionSet", "create_action_set", "H")
    );
}
