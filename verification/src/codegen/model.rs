//! Commands of the registry with their types taken apart, and which of them create a handle.

use crate::codegen::spec::{find_name, name_in, SignatureParts};
use crate::text::{has_prefix, join, starts_with, str_eq};
use crate::textmap::TextMap;
use vstd::prelude::*;
use vstd::string::*;

verus! {

/// The type of a parameter.
#[derive(Debug)]
pub enum Type {
    Const(Box<Type>),
    Ptr(Box<Type>),
    Base(String),
}

/// A `Type` with its name as a sequence of characters.
pub ghost enum Shape {
    Const(Box<Shape>),
    Ptr(Box<Shape>),
    Base(Seq<char>),
}

pub open spec fn shape_of(t: Type) -> Shape
    decreases t,
{
    match t {
        Type::Const(inner) => Shape::Const(Box::new(shape_of(*inner))),
        Type::Ptr(inner) => Shape::Ptr(Box::new(shape_of(*inner))),
        Type::Base(base) => Shape::Base(base@),
    }
}

impl View for Type {
    type V = Shape;

    open spec fn view(&self) -> Shape {
        shape_of(*self)
    }
}

/// The name at the bottom of a type.
pub open spec fn base_of(shape: Shape) -> Seq<char>
    decreases shape,
{
    match shape {
        Shape::Const(inner) => base_of(*inner),
        Shape::Ptr(inner) => base_of(*inner),
        Shape::Base(base) => base,
    }
}

/// How the type is written down; `None` for a constant that is not behind a pointer.
pub open spec fn written_type(shape: Shape) -> Option<Seq<char>>
    decreases shape,
{
    match shape {
        Shape::Const(inner) => match *inner {
            Shape::Ptr(base) => match written_type(*base) {
                Some(text) => Some("*const "@ + text),
                None => None,
            },
            _ => None,
        },
        Shape::Ptr(inner) => match written_type(*inner) {
            Some(text) => Some("*mut "@ + text),
            None => None,
        },
        Shape::Base(base) => Some(base),
    }
}

/// The type that the parts of a declaration spell out: a name, a name and a star, or a name and
/// an array, which counts as a pointer; `const` may stand before each. `None` if they spell
/// nothing of the kind.
pub open spec fn type_of(parts: Seq<SignatureParts>) -> Option<Shape>
    decreases parts.len(),
{
    if parts.len() == 0 {
        None
    } else {
        match parts[0] {
            SignatureParts::Other(q) => if q@ == "const"@ {
                match type_of(parts.subrange(1, parts.len() as int)) {
                    Some(inner) => Some(Shape::Const(Box::new(inner))),
                    None => None,
                }
            } else {
                None
            },
            SignatureParts::Type(t) => if parts.len() < 2 {
                None
            } else if parts[1] is Other {
                if parts[1]->Other_0@ == "*"@ {
                    Some(Shape::Ptr(Box::new(Shape::Base(t@))))
                } else {
                    None
                }
            } else if parts.len() == 2 {
                Some(Shape::Base(t@))
            } else if parts[2] is Other && parts[2]->Other_0@ == "["@ {
                Some(Shape::Ptr(Box::new(Shape::Base(t@))))
            } else {
                None
            },
            _ => None,
        }
    }
}

/// The view of an optional type.
pub open spec fn opt_shape(t: Option<Type>) -> Option<Shape> {
    match t {
        Some(t) => Some(t@),
        None => None,
    }
}

impl Type {
    /// The name at the bottom of the type.
    pub fn base(&self) -> (r: &str)
        ensures
            r@ == base_of(self@),
        decreases self,
    {
        match self {
            Type::Const(inner) => inner.base(),
            Type::Ptr(inner) => inner.base(),
            Type::Base(base) => base.as_str(),
        }
    }

    pub fn as_const(&self) -> (r: Option<&Type>)
        ensures
            match self@ {
                Shape::Const(inner) => r matches Some(t) && t@ == *inner,
                _ => r is None,
            },
    {
        match self {
            Type::Const(inner) => Some(inner),
            _ => None,
        }
    }

    pub fn as_ptr(&self) -> (r: Option<&Type>)
        ensures
            match self@ {
                Shape::Ptr(inner) => r matches Some(t) && t@ == *inner,
                _ => r is None,
            },
    {
        match self {
            Type::Ptr(inner) => Some(inner),
            _ => None,
        }
    }

    pub fn as_base(&self) -> (r: Option<&str>)
        ensures
            match self@ {
                Shape::Base(base) => r matches Some(s) && s@ == base,
                _ => r is None,
            },
    {
        match self {
            Type::Base(base) => Some(base.as_str()),
            _ => None,
        }
    }

    /// Writes the type down.
    pub fn to_text(&self) -> (r: Option<String>)
        ensures
            match r {
                Some(s) => written_type(self@) == Some(s@),
                None => written_type(self@) is None,
            },
        decreases self,
    {
        proof {
            reveal_with_fuel(shape_of, 2);
        }
        match self {
            Type::Const(inner) => match &**inner {
                Type::Ptr(base) => match base.to_text() {
                    Some(text) => Some(join("*const ", text.as_str())),
                    None => None,
                },
                _ => None,
            },
            Type::Ptr(inner) => match inner.to_text() {
                Some(text) => Some(join("*mut ", text.as_str())),
                None => None,
            },
            Type::Base(base) => Some(base.clone()),
        }
    }

    /// Reads the type that the parts of a declaration spell out.
    pub fn from_parts(parts: &[SignatureParts]) -> (r: Option<Type>)
        ensures
            opt_shape(r) == type_of(parts@),
    {
        assert(parts@.subrange(0, parts@.len() as int) =~= parts@);
        Type::from_parts_at(parts, 0)
    }

    fn from_parts_at(parts: &[SignatureParts], from: usize) -> (r: Option<Type>)
        requires
            from <= parts@.len(),
        ensures
            opt_shape(r) == type_of(parts@.subrange(from as int, parts@.len() as int)),
        decreases parts@.len() - from,
    {
        let ghost rest = parts@.subrange(from as int, parts@.len() as int);
        proof {
            reveal_with_fuel(shape_of, 2);
        }
        if from == parts.len() {
            return None;
        }
        assert(rest[0] == parts@[from as int]);
        match &parts[from] {
            SignatureParts::Other(q) => if str_eq(q.as_str(), "const") {
                assert(rest.subrange(1, rest.len() as int) =~= parts@.subrange(
                    from + 1,
                    parts@.len() as int,
                ));
                match Type::from_parts_at(parts, from + 1) {
                    Some(inner) => Some(Type::Const(Box::new(inner))),
                    None => None,
                }
            } else {
                None
            },
            SignatureParts::Type(t) => {
                if parts.len() - from < 2 {
                    return None;
                }
                assert(rest[1] == parts@[from + 1]);
                match &parts[from + 1] {
                    SignatureParts::Other(p) => if str_eq(p.as_str(), "*") {
                        Some(Type::Ptr(Box::new(Type::Base(t.clone()))))
                    } else {
                        None
                    },
                    _ => {
                        if parts.len() - from == 2 {
                            return Some(Type::Base(t.clone()));
                        }
                        assert(rest[2] == parts@[from + 2]);
                        match &parts[from + 2] {
                            SignatureParts::Other(p) => if str_eq(p.as_str(), "[") {
                                Some(Type::Ptr(Box::new(Type::Base(t.clone()))))
                            } else {
                                None
                            },
                            _ => None,
                        }
                    },
                }
            },
            _ => None,
        }
    }
}

/// A parameter, or what a command is called and returns.
#[derive(Debug)]
pub struct Signature {
    pub ty: Type,
    pub name: String,
}

/// A `Signature` with its strings as sequences of characters.
pub ghost struct Declared {
    pub ty: Shape,
    pub name: Seq<char>,
}

impl View for Signature {
    type V = Declared;

    open spec fn view(&self) -> Declared {
        Declared { ty: self.ty@, name: self.name@ }
    }
}

/// What the parts of a declaration declare.
pub open spec fn declared_by(parts: Seq<SignatureParts>) -> Option<Declared> {
    match (type_of(parts), name_in(parts)) {
        (Some(ty), Some(name)) => Some(Declared { ty, name }),
        _ => None,
    }
}

impl Signature {
    /// Reads a declaration.
    pub fn from_parts(parts: &[SignatureParts]) -> (r: Option<Signature>)
        ensures
            match r {
                Some(s) => declared_by(parts@) == Some(s@),
                None => declared_by(parts@) is None,
            },
    {
        match (Type::from_parts(parts), find_name(parts)) {
            (Some(ty), Some(name)) => Some(Signature { ty, name: name.clone() }),
            _ => None,
        }
    }

    /// Writes the declaration down.
    pub fn to_text(&self) -> (r: Option<String>)
        ensures
            match r {
                Some(s) => written_type(self.ty@) is Some && s@ == self.name@ + ": "@
                    + written_type(self.ty@)->Some_0,
                None => written_type(self.ty@) is None,
            },
    {
        match self.ty.to_text() {
            Some(ty) => {
                let mut out: String = join(self.name.as_str(), ": ");
                out.append(ty.as_str());
                Some(out)
            },
            None => None,
        }
    }
}

#[derive(Debug)]
pub struct Command {
    pub proto: Signature,
    pub params: Vec<Signature>,
}

/// A `Command` with its strings as sequences of characters.
pub ghost struct Callable {
    pub proto: Declared,
    pub params: Seq<Declared>,
}

/// What a list of parameters declares.
pub open spec fn declarations(params: Seq<Signature>) -> Seq<Declared> {
    params.map_values(|s: Signature| s@)
}

impl View for Command {
    type V = Callable;

    open spec fn view(&self) -> Callable {
        Callable { proto: self.proto@, params: declarations(self.params@) }
    }
}

/// A command that creates a handle below a parent.
#[derive(Debug)]
pub struct CreateCommand {
    pub name: String,
    pub parent_ty: String,
    pub create_info_ty: String,
    pub out_handle_ty: String,
}

/// A `CreateCommand` with its strings as sequences of characters.
pub ghost struct Creation {
    pub name: Seq<char>,
    pub parent_ty: Seq<char>,
    pub create_info_ty: Seq<char>,
    pub out_handle_ty: Seq<char>,
}

impl View for CreateCommand {
    type V = Creation;

    open spec fn view(&self) -> Creation {
        Creation {
            name: self.name@,
            parent_ty: self.parent_ty@,
            create_info_ty: self.create_info_ty@,
            out_handle_ty: self.out_handle_ty@,
        }
    }
}

/// The view of an optional creating command.
pub open spec fn opt_creation(c: Option<CreateCommand>) -> Option<Creation> {
    match c {
        Some(c) => Some(c@),
        None => None,
    }
}

/// The command that creates an instance. It has no parent, and takes two create infos.
pub open spec fn creates_instance(cmd: Callable) -> bool {
    cmd.proto.name == "xrCreateApiLayerInstance"@
}

/// The command has the form `XrResult name(XrParent, const XrInfo *, XrHandle *)`, and what it
/// gives out is not the handle of an asynchronous request.
pub open spec fn creation_of(cmd: Callable) -> Option<Creation> {
    if exists|i: int|
        0 <= i < cmd.params.len() && !has_prefix(base_of((#[trigger] cmd.params[i]).ty), "Xr"@) {
        None
    } else if cmd.proto.ty != Shape::Base("XrResult"@) || cmd.params.len() != 3 {
        None
    } else {
        match (cmd.params[0].ty, cmd.params[1].ty, cmd.params[2].ty) {
            (Shape::Base(parent_ty), Shape::Const(info), Shape::Ptr(handle)) => {
                match (*info, *handle) {
                    (Shape::Ptr(info), Shape::Base(out_handle_ty)) => match *info {
                        Shape::Base(create_info_ty) => if out_handle_ty
                            == "XrAsyncRequestIdFB"@ {
                            None
                        } else {
                            Some(
                                Creation {
                                    name: cmd.proto.name,
                                    parent_ty,
                                    create_info_ty,
                                    out_handle_ty,
                                },
                            )
                        },
                        _ => None,
                    },
                    _ => None,
                }
            },
            _ => None,
        }
    }
}

/// What `cmd` creates, given the parent type of each handle type.
pub open spec fn accepted(cmd: Callable, parent_of: Map<Seq<char>, Seq<char>>) -> Option<Creation> {
    if creates_instance(cmd) {
        Some(
            Creation {
                name: cmd.proto.name,
                parent_ty: Seq::empty(),
                create_info_ty: Seq::empty(),
                out_handle_ty: Seq::empty(),
            },
        )
    } else {
        match creation_of(cmd) {
            Some(c) => if parent_of[c.out_handle_ty] == c.parent_ty {
                Some(c)
            } else {
                None
            },
            None => None,
        }
    }
}

/// The handle type that `cmd` creates by its form has a parent type.
pub open spec fn parent_is_known(cmd: Callable, parent_of: Map<Seq<char>, Seq<char>>) -> bool {
    creates_instance(cmd) || (creation_of(cmd) matches Some(c) ==> parent_of.contains_key(
        c.out_handle_ty,
    ))
}

/// What `cmd` creates by its form.
pub fn creation_form(cmd: &Command) -> (r: Option<CreateCommand>)
    ensures
        opt_creation(r) == creation_of(cmd@),
{
    let mut i: usize = 0;
    while i < cmd.params.len()
        invariant
            i <= cmd.params.len(),
            forall|j: int|
                0 <= j < i ==> has_prefix(base_of((#[trigger] cmd@.params[j]).ty), "Xr"@),
        decreases cmd.params.len() - i,
    {
        if !starts_with(cmd.params[i].ty.base(), "Xr") {
            assert(!has_prefix(base_of(cmd@.params[i as int].ty), "Xr"@));
            return None;
        }
        i += 1;
    }
    match cmd.proto.ty.as_base() {
        Some(base) => if !str_eq(base, "XrResult") {
            return None;
        },
        None => return None,
    }
    if cmd.params.len() != 3 {
        return None;
    }
    let parent_ty: String = match cmd.params[0].ty.as_base() {
        Some(base) => base.to_owned(),
        None => return None,
    };
    let info = match cmd.params[1].ty.as_const() {
        Some(info) => info,
        None => return None,
    };
    let info = match info.as_ptr() {
        Some(info) => info,
        None => return None,
    };
    let create_info_ty: String = match info.as_base() {
        Some(base) => base.to_owned(),
        None => return None,
    };
    let handle = match cmd.params[2].ty.as_ptr() {
        Some(handle) => handle,
        None => return None,
    };
    let out_handle_ty: String = match handle.as_base() {
        Some(base) => base.to_owned(),
        None => return None,
    };
    if str_eq(out_handle_ty.as_str(), "XrAsyncRequestIdFB") {
        return None;
    }
    Some(CreateCommand { name: cmd.proto.name.clone(), parent_ty, create_info_ty, out_handle_ty })
}

/// Filters out the creating commands that are not handled: those of another form, and those
/// whose first parameter is not the parent of what they create.
pub fn check_signature(cmd: &Command, parent_of: &TextMap) -> (r: Option<CreateCommand>)
    requires
        parent_of.wf(),
        parent_is_known(cmd@, parent_of@),
    ensures
        opt_creation(r) == accepted(cmd@, parent_of@),
{
    if str_eq(cmd.proto.name.as_str(), "xrCreateApiLayerInstance") {
        return Some(
            CreateCommand {
                name: cmd.proto.name.clone(),
                parent_ty: String::new(),
                create_info_ty: String::new(),
                out_handle_ty: String::new(),
            },
        );
    }
    match creation_form(cmd) {
        Some(c) => match parent_of.get(c.out_handle_ty.as_str()) {
            Some(parent) => if str_eq(parent.as_str(), c.parent_ty.as_str()) {
                Some(c)
            } else {
                None
            },
            None => None,
        },
        None => None,
    }
}

/// `shape` with `const` before it `n` times.
pub open spec fn const_times(n: nat, shape: Shape) -> Shape
    decreases n,
{
    if n == 0 {
        shape
    } else {
        Shape::Const(Box::new(const_times((n - 1) as nat, shape)))
    }
}

/// The part is this piece of text between the others.
pub open spec fn is_text(part: SignatureParts, text: Seq<char>) -> bool {
    part matches SignatureParts::Other(t) && t@ == text
}

/// From place `n` on the parts spell a pointer: a type and a star, or a type, anything but a piece
/// of text, and the start of an array.
pub open spec fn spells_pointer(parts: Seq<SignatureParts>, n: int) -> bool {
    &&& n + 1 < parts.len()
    &&& parts[n] is Type
    &&& is_text(parts[n + 1], "*"@) || (!(parts[n + 1] is Other) && n + 2 < parts.len() && is_text(
        parts[n + 2],
        "["@,
    ))
}

/// From place `n` on the parts spell a name: a type and one part more, which is not a piece of
/// text, and nothing else.
pub open spec fn spells_name(parts: Seq<SignatureParts>, n: int) -> bool {
    n + 2 == parts.len() && n >= 0 && parts[n] is Type && !(parts[n + 1] is Other)
}

/// The first `n` parts are `const`.
pub open spec fn consts_before(parts: Seq<SignatureParts>, n: int) -> bool {
    n <= parts.len() && forall|i: int| 0 <= i < n ==> is_text(#[trigger] parts[i], "const"@)
}

proof fn lemma_consts_shift(parts: Seq<SignatureParts>, n: int)
    requires
        parts.len() > 0,
        is_text(parts[0], "const"@),
        n >= 0,
    ensures
        consts_before(parts, n + 1) <==> consts_before(
            parts.subrange(1, parts.len() as int),
            n,
        ),
        spells_pointer(parts, n + 1) <==> spells_pointer(
            parts.subrange(1, parts.len() as int),
            n,
        ),
        spells_name(parts, n + 1) <==> spells_name(parts.subrange(1, parts.len() as int), n),
{
    let rest = parts.subrange(1, parts.len() as int);
    assert forall|i: int| 0 <= i < rest.len() implies #[trigger] rest[i] == parts[i + 1] by {}
    if consts_before(rest, n) {
        assert forall|i: int| 0 <= i < n + 1 implies is_text(#[trigger] parts[i], "const"@) by {
            if i > 0 {
                assert(is_text(rest[i - 1], "const"@));
            }
        }
    }
    if consts_before(parts, n + 1) {
        assert forall|i: int| 0 <= i < n implies is_text(#[trigger] rest[i], "const"@) by {
            assert(is_text(parts[i + 1], "const"@));
        }
    }
}

/// Whatever number of `const` stands before it, a pointer is read as a pointer to its type and a
/// name as that type, with as many `const` around them.
pub proof fn law_types_are_read(parts: Seq<SignatureParts>, n: nat)
    requires
        consts_before(parts, n as int),
    ensures
        spells_pointer(parts, n as int) ==> type_of(parts) == Some(
            const_times(
                n,
                Shape::Ptr(Box::new(Shape::Base(parts[n as int]->Type_0@))),
            ),
        ),
        spells_name(parts, n as int) ==> type_of(parts) == Some(
            const_times(n, Shape::Base(parts[n as int]->Type_0@)),
        ),
    decreases n,
{
    if n > 0 {
        let rest = parts.subrange(1, parts.len() as int);
        assert(is_text(parts[0], "const"@));
        lemma_consts_shift(parts, n - 1);
        law_types_are_read(rest, (n - 1) as nat);
        if n < parts.len() {
            assert(rest[n - 1] == parts[n as int]);
        }
    }
}

/// The parts spell a pointer or a name, behind `n` times `const`.
pub open spec fn spelled_at(parts: Seq<SignatureParts>, n: int) -> bool {
    n >= 0 && consts_before(parts, n) && (spells_pointer(parts, n) || spells_name(parts, n))
}

/// Nothing else is read as a type.
pub proof fn law_only_types_are_read(parts: Seq<SignatureParts>)
    ensures
        type_of(parts) is Some ==> exists|n: int| #[trigger] spelled_at(parts, n),
    decreases parts.len(),
{
    if type_of(parts) is Some {
        if parts[0] is Other {
            let rest = parts.subrange(1, parts.len() as int);
            law_only_types_are_read(rest);
            let n = choose|n: int| #[trigger] spelled_at(rest, n);
            lemma_consts_shift(parts, n);
            assert(spelled_at(parts, n + 1));
        } else {
            assert(spelled_at(parts, 0));
        }
    }
}

/// A declaration is read exactly if its type is and one of its parts is a name, which is then the
/// first that is.
pub proof fn law_declarations_are_read(parts: &[SignatureParts], r: Option<Signature>)
    requires
        call_ensures(Signature::from_parts, (parts,), r),
    ensures
        r is Some <==> type_of(parts@) is Some && name_in(parts@) is Some,
        r matches Some(s) ==> type_of(parts@) == Some(s.ty@) && name_in(parts@) == Some(s.name@),
        declared_by(parts@) matches Some(d) ==> type_of(parts@) == Some(d.ty) && name_in(parts@)
            == Some(d.name),
        declared_by(parts@) is None <==> type_of(parts@) is None || name_in(parts@) is None,
{
}

/// A type is seen as it is built.
pub proof fn law_types_are_seen(inner: Type, name: String, s: Signature, c: CreateCommand)
    ensures
        Type::Const(Box::new(inner))@ == Shape::Const(Box::new(inner@)),
        Type::Ptr(Box::new(inner))@ == Shape::Ptr(Box::new(inner@)),
        Type::Base(name)@ == Shape::Base(name@),
        s@.ty == s.ty@ && s@.name == s.name@,
        c@.name == c.name@,
        c@.parent_ty == c.parent_ty@,
        c@.create_info_ty == c.create_info_ty@,
        c@.out_handle_ty == c.out_handle_ty@,
        base_of(Shape::Base(name@)) == name@,
        base_of(Shape::Ptr(Box::new(inner@))) == base_of(inner@),
        base_of(Shape::Const(Box::new(inner@))) == base_of(inner@),
{
    reveal_with_fuel(shape_of, 2);
    reveal_with_fuel(base_of, 2);
}

/// Pointers are written before what they point to, and a constant only as part of a pointer.
pub proof fn law_types_are_written(shape: Shape, name: Seq<char>)
    ensures
        written_type(Shape::Base(name)) == Some(name),
        written_type(Shape::Ptr(Box::new(shape))) is Some <==> written_type(shape) is Some,
        written_type(Shape::Const(Box::new(Shape::Ptr(Box::new(shape))))) is Some <==> written_type(
            shape,
        ) is Some,
        written_type(shape) matches Some(text) ==> {
            &&& written_type(Shape::Ptr(Box::new(shape))) == Some("*mut "@ + text)
            &&& written_type(Shape::Const(Box::new(Shape::Ptr(Box::new(shape))))) == Some(
                "*const "@ + text,
            )
        },
        written_type(Shape::Const(Box::new(Shape::Base(name)))) is None,
        written_type(Shape::Const(Box::new(Shape::Const(Box::new(shape))))) is None,
{
    reveal_with_fuel(written_type, 3);
}

/// A declaration is written as its name and its type.
pub proof fn law_declarations_are_written(s: &Signature, r: Option<String>, t: Option<String>)
    requires
        call_ensures(Signature::to_text, (s,), r),
        call_ensures(Type::to_text, (&s.ty,), t),
    ensures
        r is Some <==> written_type(s.ty@) is Some,
        t is Some <==> written_type(s.ty@) is Some,
        t matches Some(u) ==> written_type(s.ty@) == Some(u@),
        r matches Some(u) ==> u@ == s.name@ + ": "@ + written_type(s.ty@)->Some_0,
{
}

/// A command creates a handle by its form exactly if it returns a result and takes a parent, a
/// pointer to a constant create info and a pointer to the handle, all of them OpenXR types, and
/// the handle is not that of an asynchronous request.
pub proof fn law_form_of_creation(cmd: Callable, c: Creation)
    ensures
        creation_of(cmd) == Some(c) <==> {
            &&& cmd.proto.name == c.name
            &&& cmd.proto.ty == Shape::Base("XrResult"@)
            &&& cmd.params.len() == 3
            &&& cmd.params[0].ty == Shape::Base(c.parent_ty)
            &&& cmd.params[1].ty == Shape::Const(
                Box::new(Shape::Ptr(Box::new(Shape::Base(c.create_info_ty)))),
            )
            &&& cmd.params[2].ty == Shape::Ptr(Box::new(Shape::Base(c.out_handle_ty)))
            &&& has_prefix(c.parent_ty, "Xr"@)
            &&& has_prefix(c.create_info_ty, "Xr"@)
            &&& has_prefix(c.out_handle_ty, "Xr"@)
            &&& c.out_handle_ty != "XrAsyncRequestIdFB"@
        },
{
    reveal_with_fuel(base_of, 4);
    if creation_of(cmd) == Some(c) {
        assert(has_prefix(base_of(cmd.params[0].ty), "Xr"@));
        assert(has_prefix(base_of(cmd.params[1].ty), "Xr"@));
        assert(has_prefix(base_of(cmd.params[2].ty), "Xr"@));
    }
}

/// A command is accepted exactly if it creates the instance, by its name, or creates a handle
/// below that handle's own parent. What creates the instance has no types.
pub proof fn law_accepted_commands(cmd: Callable, parent_of: Map<Seq<char>, Seq<char>>, c: Creation)
    requires
        parent_is_known(cmd, parent_of),
    ensures
        cmd.proto.name == "xrCreateApiLayerInstance"@ ==> (accepted(cmd, parent_of) matches Some(
            d,
        ) && d.name == cmd.proto.name && d.parent_ty.len() == 0 && d.create_info_ty.len() == 0
            && d.out_handle_ty.len() == 0),
        cmd.proto.name != "xrCreateApiLayerInstance"@ ==> (accepted(cmd, parent_of) == Some(c)
            <==> creation_of(cmd) == Some(c) && parent_of.contains_key(c.out_handle_ty)
            && parent_of[c.out_handle_ty] == c.parent_ty),
{
}

/// The parent has to be known of every handle type that is created by form, and of nothing else.
pub proof fn law_parent_has_to_be_known(cmd: Callable, parent_of: Map<Seq<char>, Seq<char>>)
    ensures
        cmd.proto.name == "xrCreateApiLayerInstance"@ ==> parent_is_known(cmd, parent_of),
        creation_of(cmd) is None ==> parent_is_known(cmd, parent_of),
        cmd.proto.name != "xrCreateApiLayerInstance"@ ==> (creation_of(cmd) matches Some(c) ==> (
        parent_is_known(cmd, parent_of) <==> parent_of.contains_key(c.out_handle_ty))),
{
}

/// Commands are judged by what they declare.
pub proof fn law_commands_are_judged(
    cmd: &Command,
    parent_of: &TextMap,
    form: Option<CreateCommand>,
    r: Option<CreateCommand>,
)
    requires
        parent_of.wf(),
        parent_is_known(cmd@, parent_of@),
        call_ensures(creation_form, (cmd,), form),
        call_ensures(check_signature, (cmd, parent_of), r),
    ensures
        form matches Some(c) ==> creation_of(cmd@) == Some(c@),
        form is None <==> creation_of(cmd@) is None,
        r matches Some(c) ==> accepted(cmd@, parent_of@) == Some(c@),
        r is None <==> accepted(cmd@, parent_of@) is None,
        cmd@.proto == cmd.proto@,
        cmd@.params.len() == cmd.params@.len(),
        forall|i: int|
            0 <= i < cmd.params@.len() ==> cmd@.params[i] == (#[trigger] cmd.params@[i])@,
{
}

/// A type is taken apart as it is built.
pub proof fn law_types_are_taken_apart(t: &Type, parts: &[SignatureParts], read: Option<Type>)
    requires
        call_ensures(Type::from_parts, (parts,), read),
    ensures
        read is Some <==> type_of(parts@) is Some,
        read matches Some(u) ==> type_of(parts@) == Some(u@),
        forall|r: &str| #[trigger] call_ensures(Type::base, (t,), r) ==> r@ == base_of(t@),
        forall|r: Option<&Type>| #[trigger]
            call_ensures(Type::as_const, (t,), r) ==> (r is Some <==> t@ is Const) && (
            r matches Some(u) ==> t@ == Shape::Const(Box::new(u@))),
        forall|r: Option<&Type>| #[trigger]
            call_ensures(Type::as_ptr, (t,), r) ==> (r is Some <==> t@ is Ptr) && (
            r matches Some(u) ==> t@ == Shape::Ptr(Box::new(u@))),
        forall|r: Option<&'static str>| #[trigger]
            call_ensures(Type::as_base, (t,), r) ==> (r is Some <==> t@ is Base) && (
            r matches Some(u) ==> t@ == Shape::Base(u@)),
{
}

} // verus!
