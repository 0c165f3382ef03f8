//! The tokens that a macro is given, and the little grammar that is read from them.

use crate::text::str_eq;
use crate::textmap::TextMap;
use vstd::prelude::*;
use vstd::string::*;

verus! {

#[derive(Debug, Clone, Copy, PartialEq, Eq, Structural)]
pub enum Delimiter {
    Parenthesis,
    Bracket,
    Brace,
    Invisible,
}

/// The character that opens a group; a group without delimiters has the null character.
pub open spec fn opening(d: Delimiter) -> char {
    match d {
        Delimiter::Parenthesis => '(',
        Delimiter::Bracket => '[',
        Delimiter::Brace => '{',
        Delimiter::Invisible => '\0',
    }
}

pub fn delimiter_start(d: Delimiter) -> (r: char)
    ensures
        r == opening(d),
{
    match d {
        Delimiter::Parenthesis => '(',
        Delimiter::Bracket => '[',
        Delimiter::Brace => '{',
        Delimiter::Invisible => '\0',
    }
}

/// A token: a word, a mark, something literal, or tokens between delimiters.
#[derive(Debug)]
pub enum Token {
    Ident(String),
    Punct(char),
    Literal(String),
    Group(Delimiter, Vec<Token>),
}

/// Why tokens could not be read.
#[derive(Debug)]
pub enum TokenError {
    /// There are no more tokens.
    End,
    /// The token is not a word.
    NotIdent,
    /// The token is not the mark that has to stand here.
    NotPunct(char),
    /// The token is not a group.
    NotGroup(Delimiter),
    /// The token is a group with other delimiters; its opening character.
    OtherGroup(char),
    /// The key has a value already: that value.
    Duplicate(String),
    /// A field that is not known: its name.
    UnknownField(String),
}

/// A `TokenError` with its strings as sequences of characters.
pub ghost enum Malformed {
    End,
    NotIdent,
    NotPunct(char),
    NotGroup(Delimiter),
    OtherGroup(char),
    Duplicate(Seq<char>),
    UnknownField(Seq<char>),
}

impl View for TokenError {
    type V = Malformed;

    open spec fn view(&self) -> Malformed {
        match *self {
            TokenError::End => Malformed::End,
            TokenError::NotIdent => Malformed::NotIdent,
            TokenError::NotPunct(p) => Malformed::NotPunct(p),
            TokenError::NotGroup(d) => Malformed::NotGroup(d),
            TokenError::OtherGroup(c) => Malformed::OtherGroup(c),
            TokenError::Duplicate(v) => Malformed::Duplicate(v@),
            TokenError::UnknownField(n) => Malformed::UnknownField(n@),
        }
    }
}

/// A place in a sequence of tokens.
pub struct Cursor<'a> {
    pub tokens: &'a [Token],
    pub pos: usize,
}

impl<'a> Cursor<'a> {
    pub open spec fn wf(&self) -> bool {
        self.pos <= self.tokens@.len()
    }

    /// The tokens that are still to come.
    pub open spec fn rest(&self) -> Seq<Token> {
        self.tokens@.subrange(self.pos as int, self.tokens@.len() as int)
    }

    pub fn new(tokens: &'a [Token]) -> (r: Cursor<'a>)
        ensures
            r.wf(),
            r.tokens == tokens,
            r.rest() == tokens@,
    {
        let r = Cursor { tokens, pos: 0 };
        assert(r.rest() =~= tokens@);
        r
    }

    /// Takes the next token, which has to be the mark `p`. At the end nothing is taken.
    pub fn expect_punct(&mut self, p: char) -> (r: Result<(), TokenError>)
        requires
            old(self).wf(),
        ensures
            final(self).wf(),
            final(self).tokens == old(self).tokens,
            old(self).rest().len() == 0 ==> r == Err::<(), _>(TokenError::End) && final(self).pos
                == old(self).pos,
            old(self).rest().len() > 0 ==> final(self).pos == old(self).pos + 1,
            old(self).rest().len() > 0 ==> r == (if old(self).rest()[0] == Token::Punct(p) {
                Ok(())
            } else {
                Err(TokenError::NotPunct(p))
            }),
    {
        if self.pos == self.tokens.len() {
            return Err(TokenError::End);
        }
        let i: usize = self.pos;
        self.pos = i + 1;
        match &self.tokens[i] {
            Token::Punct(c) => if *c == p {
                Ok(())
            } else {
                Err(TokenError::NotPunct(p))
            },
            _ => Err(TokenError::NotPunct(p)),
        }
    }

    /// Takes the next token, which has to be a group with the given delimiters.
    pub fn expect_group(&mut self, delimiter: Delimiter) -> (r: Result<&'a Vec<Token>, TokenError>)
        requires
            old(self).wf(),
        ensures
            final(self).wf(),
            final(self).tokens == old(self).tokens,
            old(self).rest().len() == 0 ==> r == Err::<&'a Vec<Token>, _>(TokenError::End) && final(self).pos == old(self).pos,
            old(self).rest().len() > 0 ==> final(self).pos == old(self).pos + 1,
            old(self).rest().len() > 0 ==> match old(self).rest()[0] {
                Token::Group(d, inner) => if d == delimiter {
                    r == Ok::<_, TokenError>(&inner)
                } else {
                    r == Err::<&'a Vec<Token>, _>(TokenError::OtherGroup(opening(d)))
                },
                _ => r == Err::<&'a Vec<Token>, _>(TokenError::NotGroup(delimiter)),
            },
    {
        if self.pos == self.tokens.len() {
            return Err(TokenError::End);
        }
        let i: usize = self.pos;
        self.pos = i + 1;
        match &self.tokens[i] {
            Token::Group(d, inner) => if *d == delimiter {
                Ok(inner)
            } else {
                Err(TokenError::OtherGroup(delimiter_start(*d)))
            },
            _ => Err(TokenError::NotGroup(delimiter)),
        }
    }

    /// Takes the next token, which has to be a word.
    pub fn expect_ident(&mut self) -> (r: Result<&'a String, TokenError>)
        requires
            old(self).wf(),
        ensures
            final(self).wf(),
            final(self).tokens == old(self).tokens,
            old(self).rest().len() == 0 ==> r == Err::<&'a String, _>(TokenError::End) && final(self).pos == old(self).pos,
            old(self).rest().len() > 0 ==> final(self).pos == old(self).pos + 1,
            old(self).rest().len() > 0 ==> match old(self).rest()[0] {
                Token::Ident(name) => r == Ok::<_, TokenError>(&name),
                _ => r == Err::<&'a String, _>(TokenError::NotIdent),
            },
    {
        if self.pos == self.tokens.len() {
            return Err(TokenError::End);
        }
        let i: usize = self.pos;
        self.pos = i + 1;
        match &self.tokens[i] {
            Token::Ident(name) => Ok(name),
            _ => Err(TokenError::NotIdent),
        }
    }
}

/// The tokens begin with a key, a colon and a value.
pub open spec fn starts_with_entry(tokens: Seq<Token>) -> bool {
    tokens.len() >= 3 && tokens[0] is Ident && tokens[1] == Token::Punct(':') && tokens[2] is Ident
}

/// What is wrong with tokens that should begin with an entry and do not.
pub open spec fn entry_fault(tokens: Seq<Token>) -> Malformed {
    if tokens.len() > 0 && !(tokens[0] is Ident) {
        Malformed::NotIdent
    } else if tokens.len() < 2 {
        Malformed::End
    } else if tokens[1] != Token::Punct(':') {
        Malformed::NotPunct(':')
    } else if tokens.len() < 3 {
        Malformed::End
    } else {
        Malformed::NotIdent
    }
}

/// The entries that `key: value, key: value` adds to `map`; a comma may stand at the end. An
/// error if the tokens are not of that form, or a key has a value already.
pub open spec fn entries_of(
    tokens: Seq<Token>,
    map: Map<Seq<char>, Seq<char>>,
) -> Result<Map<Seq<char>, Seq<char>>, Malformed>
    decreases tokens.len(),
{
    if tokens.len() == 0 {
        Ok(map)
    } else if !starts_with_entry(tokens) {
        Err(entry_fault(tokens))
    } else if map.contains_key(tokens[0]->Ident_0@) {
        Err(Malformed::Duplicate(map[tokens[0]->Ident_0@]))
    } else {
        let more = map.insert(tokens[0]->Ident_0@, tokens[2]->Ident_0@);
        if tokens.len() == 3 {
            Ok(more)
        } else if tokens[3] != Token::Punct(',') {
            Err(Malformed::NotPunct(','))
        } else {
            entries_of(tokens.subrange(4, tokens.len() as int), more)
        }
    }
}

/// The keys in the order in which `entries_of` adds them.
pub open spec fn entry_keys(tokens: Seq<Token>) -> Seq<Seq<char>>
    decreases tokens.len(),
{
    if !starts_with_entry(tokens) {
        Seq::empty()
    } else if tokens.len() <= 4 {
        seq![tokens[0]->Ident_0@]
    } else {
        seq![tokens[0]->Ident_0@] + entry_keys(tokens.subrange(4, tokens.len() as int))
    }
}

/// Reads `key: value, key: value` into a map.
pub fn parse_ident_map(tokens: &[Token], map: &mut TextMap) -> (r: Result<(), TokenError>)
    requires
        old(map).wf(),
    ensures
        final(map).wf(),
        match r {
            Ok(_) => entries_of(tokens@, old(map)@) == Ok::<_, Malformed>(final(map)@),
            Err(e) => entries_of(tokens@, old(map)@) == Err::<Map<Seq<char>, Seq<char>>, _>(e@),
        },
        r is Ok ==> final(map).keys() == old(map).keys() + entry_keys(tokens@),
{
    let mut cursor = Cursor::new(tokens);
    let ghost start = *map;
    let ghost mut keys: Seq<Seq<char>> = Seq::empty();
    assert(map.keys() =~= start.keys() + keys);
    assert(keys + entry_keys(tokens@) =~= entry_keys(tokens@));
    while cursor.pos < tokens.len()
        invariant
            cursor.wf(),
            cursor.tokens == tokens,
            map.wf(),
            start == *old(map),
            entries_of(cursor.rest(), map@) == entries_of(tokens@, start@),
            map.keys() == start.keys() + keys,
            entries_of(tokens@, start@) is Ok ==> keys + entry_keys(cursor.rest()) == entry_keys(
                tokens@,
            ),
        decreases tokens.len() - cursor.pos,
    {
        let ghost rest = cursor.rest();
        let ghost here = cursor.pos as int;
        let ghost before = map@;
        let k = match cursor.expect_ident() {
            Ok(k) => k.clone(),
            Err(e) => return Err(e),
        };
        assert(forall|j: int|
            0 <= j < rest.len() - 1 ==> cursor.rest()[j] == rest[j + 1]);
        match cursor.expect_punct(':') {
            Ok(_) => (),
            Err(e) => return Err(e),
        }
        assert(forall|j: int|
            0 <= j < rest.len() - 2 ==> cursor.rest()[j] == rest[j + 2]);
        let v = match cursor.expect_ident() {
            Ok(v) => v.clone(),
            Err(e) => return Err(e),
        };
        assert(starts_with_entry(rest));
        let ghost key = k@;
        match map.insert(k, v) {
            Some(earlier) => return Err(TokenError::Duplicate(earlier)),
            None => (),
        }
        proof {
            keys = keys.push(key);
            assert(map.keys() =~= start.keys() + keys);
            assert(forall|j: int|
                0 <= j < rest.len() - 3 ==> cursor.rest()[j] == rest[j + 3]);
        }
        if cursor.pos == tokens.len() {
            proof {
                assert(rest.len() == 3);
                assert(keys =~= keys.drop_last() + entry_keys(rest));
                assert(cursor.rest() =~= Seq::empty());
                assert(entries_of(rest, before) == Ok::<_, Malformed>(map@));
            }
            return Ok(());
        }
        match cursor.expect_punct(',') {
            Ok(_) => (),
            Err(e) => return Err(e),
        }
        proof {
            assert(cursor.rest() =~= rest.subrange(4, rest.len() as int));
            if rest.len() == 4 {
                assert(entry_keys(cursor.rest()) =~= Seq::empty());
            }
            assert(keys + entry_keys(cursor.rest()) =~= keys.drop_last() + entry_keys(rest));
        }
    }
    proof {
        assert(cursor.rest() =~= Seq::empty());
        assert(keys + entry_keys(cursor.rest()) =~= keys);
    }
    Ok(())
}

/// What the override table is made from: the name of the crate, and the two maps.
#[derive(Debug)]
pub struct TableInput {
    pub crate_name: String,
    pub hooks: TextMap,
    pub override_fns: TextMap,
}

/// The tokens begin with a field name, a colon and a group in braces.
pub open spec fn starts_with_field(tokens: Seq<Token>) -> bool {
    tokens.len() >= 3 && tokens[0] is Ident && tokens[1] == Token::Punct(':') && (
    tokens[2] matches Token::Group(d, _) && d == Delimiter::Brace)
}

/// What is wrong with tokens that should begin with a field and do not.
pub open spec fn field_fault(tokens: Seq<Token>) -> Malformed {
    if tokens.len() > 0 && !(tokens[0] is Ident) {
        Malformed::NotIdent
    } else if tokens.len() < 2 {
        Malformed::End
    } else if tokens[1] != Token::Punct(':') {
        Malformed::NotPunct(':')
    } else if tokens.len() < 3 {
        Malformed::End
    } else {
        match tokens[2] {
            Token::Group(d, _) => Malformed::OtherGroup(opening(d)),
            _ => Malformed::NotGroup(Delimiter::Brace),
        }
    }
}

/// The hooks and the overrides.
pub ghost struct Fields {
    pub hooks: Map<Seq<char>, Seq<char>>,
    pub override_fns: Map<Seq<char>, Seq<char>>,
}

/// `fields` after the field `name` with the contents `inner` was read.
pub open spec fn with_field(fields: Fields, name: Seq<char>, inner: Seq<Token>) -> Result<
    Fields,
    Malformed,
> {
    if name == "hooks"@ {
        match entries_of(inner, fields.hooks) {
            Ok(hooks) => Ok(Fields { hooks, ..fields }),
            Err(e) => Err(e),
        }
    } else if name == "override_fns"@ {
        match entries_of(inner, fields.override_fns) {
            Ok(override_fns) => Ok(Fields { override_fns, ..fields }),
            Err(e) => Err(e),
        }
    } else {
        Err(Malformed::UnknownField(name))
    }
}

/// `fields` after the fields in `tokens` were read: `hooks: { .. }` and `override_fns: { .. }`,
/// with commas between them, in any order and any number.
pub open spec fn fields_of(tokens: Seq<Token>, fields: Fields) -> Result<Fields, Malformed>
    decreases tokens.len(),
{
    if tokens.len() == 0 {
        Ok(fields)
    } else if !starts_with_field(tokens) {
        Err(field_fault(tokens))
    } else {
        let read = with_field(fields, tokens[0]->Ident_0@, tokens[2]->Group_1@);
        if read is Err || tokens.len() == 3 {
            read
        } else if tokens[3] != Token::Punct(',') {
            Err(Malformed::NotPunct(','))
        } else {
            fields_of(tokens.subrange(4, tokens.len() as int), read->Ok_0)
        }
    }
}

/// The input of the table: the name of the crate, a semicolon, and the fields.
pub open spec fn table_input_of(tokens: Seq<Token>) -> Result<Fields, Malformed> {
    if tokens.len() > 0 && !(tokens[0] is Ident) {
        Err(Malformed::NotIdent)
    } else if tokens.len() < 2 {
        Err(Malformed::End)
    } else if tokens[1] != Token::Punct(';') {
        Err(Malformed::NotPunct(';'))
    } else {
        fields_of(
            tokens.subrange(2, tokens.len() as int),
            Fields { hooks: Map::empty(), override_fns: Map::empty() },
        )
    }
}

/// Reads the input of the table.
pub fn parse_table_input(tokens: &[Token]) -> (r: Result<TableInput, TokenError>)
    ensures
        match r {
            Ok(input) => {
                &&& input.hooks.wf()
                &&& input.override_fns.wf()
                &&& tokens@[0]->Ident_0@ == input.crate_name@
                &&& table_input_of(tokens@) == Ok::<_, Malformed>(
                    Fields { hooks: input.hooks@, override_fns: input.override_fns@ },
                )
            },
            Err(e) => table_input_of(tokens@) == Err::<Fields, _>(e@),
        },
{
    let mut cursor = Cursor::new(tokens);
    let crate_name = match cursor.expect_ident() {
        Ok(k) => k.clone(),
        Err(e) => return Err(e),
    };
    assert(forall|j: int| 0 <= j < tokens@.len() - 1 ==> cursor.rest()[j] == tokens@[j + 1]);
    match cursor.expect_punct(';') {
        Ok(_) => (),
        Err(e) => return Err(e),
    }
    let mut hooks = TextMap::new();
    let mut override_fns = TextMap::new();
    assert(cursor.rest() =~= tokens@.subrange(2, tokens@.len() as int));
    while cursor.pos < tokens.len()
        invariant
            tokens@[0]->Ident_0@ == crate_name@,
            cursor.wf(),
            cursor.tokens == tokens,
            hooks.wf(),
            override_fns.wf(),
            table_input_of(tokens@) == fields_of(
                cursor.rest(),
                Fields { hooks: hooks@, override_fns: override_fns@ },
            ),
        decreases tokens.len() - cursor.pos,
    {
        let ghost rest = cursor.rest();
        let name = match cursor.expect_ident() {
            Ok(k) => k,
            Err(e) => return Err(e),
        };
        assert(forall|j: int|
            0 <= j < rest.len() - 1 ==> cursor.rest()[j] == rest[j + 1]);
        match cursor.expect_punct(':') {
            Ok(_) => (),
            Err(e) => return Err(e),
        }
        assert(forall|j: int|
            0 <= j < rest.len() - 2 ==> cursor.rest()[j] == rest[j + 2]);
        let inner = match cursor.expect_group(Delimiter::Brace) {
            Ok(v) => v,
            Err(e) => return Err(e),
        };
        assert(starts_with_field(rest));
        if str_eq(name.as_str(), "hooks") {
            match parse_ident_map(inner.as_slice(), &mut hooks) {
                Ok(_) => (),
                Err(e) => return Err(e),
            }
        } else if str_eq(name.as_str(), "override_fns") {
            match parse_ident_map(inner.as_slice(), &mut override_fns) {
                Ok(_) => (),
                Err(e) => return Err(e),
            }
        } else {
            return Err(TokenError::UnknownField(name.clone()));
        }
        assert(forall|j: int|
            0 <= j < rest.len() - 3 ==> cursor.rest()[j] == rest[j + 3]);
        if cursor.pos < tokens.len() {
            match cursor.expect_punct(',') {
                Ok(_) => (),
                Err(e) => return Err(e),
            }
            assert(cursor.rest() =~= rest.subrange(4, rest.len() as int));
        } else {
            assert(cursor.rest() =~= Seq::empty());
        }
    }
    assert(cursor.rest() =~= Seq::empty());
    Ok(TableInput { crate_name, hooks, override_fns })
}

/// The token is what stands at place `i` of a list of entries.
pub open spec fn fits_place(token: Token, i: int) -> bool {
    if i % 4 == 0 || i % 4 == 2 {
        token is Ident
    } else if i % 4 == 1 {
        token == Token::Punct(':')
    } else {
        token == Token::Punct(',')
    }
}

/// What stands at each place of a list of entries: a key, a colon, a value and a comma, again and
/// again, and at the end a value or a comma.
pub open spec fn entry_form(tokens: Seq<Token>) -> bool {
    &&& tokens.len() % 4 == 0 || tokens.len() % 4 == 3
    &&& forall|i: int|
        0 <= i < tokens.len() ==> fits_place(#[trigger] tokens[i], i)
}

/// `i` is the place of a key that is called `key`.
pub open spec fn key_stands_at(tokens: Seq<Token>, i: int, key: Seq<char>) -> bool {
    0 <= i < tokens.len() && i % 4 == 0 && tokens[i] is Ident && tokens[i]->Ident_0@ == key
}

/// No key is called like another, nor like one of `map`.
pub open spec fn keys_differ(tokens: Seq<Token>, map: Map<Seq<char>, Seq<char>>) -> bool {
    &&& forall|i: int, key: Seq<char>| #[trigger]
        key_stands_at(tokens, i, key) ==> !map.contains_key(key)
    &&& forall|i: int, j: int, key: Seq<char>|
        #[trigger] key_stands_at(tokens, i, key) && #[trigger] key_stands_at(tokens, j, key) ==> i
            == j
}

proof fn lemma_rest_of_entries(tokens: Seq<Token>)
    requires
        tokens.len() >= 4,
    ensures
        ({
            let rest = tokens.subrange(4, tokens.len() as int);
            &&& forall|i: int, key: Seq<char>| #[trigger]
                key_stands_at(rest, i, key) ==> key_stands_at(tokens, i + 4, key)
            &&& forall|i: int, key: Seq<char>| #[trigger]
                key_stands_at(tokens, i, key) && i >= 4 ==> key_stands_at(rest, i - 4, key)
            &&& starts_with_entry(tokens) && tokens[3] == Token::Punct(',') ==> (entry_form(tokens)
                <==> entry_form(rest))
        }),
{
    let rest = tokens.subrange(4, tokens.len() as int);
    assert forall|i: int| 0 <= i < rest.len() implies #[trigger] rest[i] == tokens[i + 4] by {}
    if starts_with_entry(tokens) && tokens[3] == Token::Punct(',') {
        if entry_form(tokens) {
            assert forall|i: int| 0 <= i < rest.len() implies fits_place(#[trigger] rest[i], i) by {
                assert(tokens[i + 4] == rest[i]);
                assert((i + 4) % 4 == i % 4);
            }
        }
        if entry_form(rest) {
            assert forall|i: int| 0 <= i < tokens.len() implies fits_place(#[trigger] tokens[i], i) by {
                if i >= 4 {
                    assert(rest[i - 4] == tokens[i]);
                    assert((i - 4) % 4 == i % 4);
                }
            }
        }
    }
}

/// A list of entries is read exactly if it has the form of one and no key is given twice. Then
/// each key has the value that stands behind it, and what was there before stays.
pub proof fn law_entries_are_read(tokens: Seq<Token>, map: Map<Seq<char>, Seq<char>>)
    ensures
        entries_of(tokens, map) is Ok <==> entry_form(tokens) && keys_differ(tokens, map),
        entries_of(tokens, map) matches Ok(m) ==> {
            &&& forall|key: Seq<char>| #[trigger]
                m.contains_key(key) <==> map.contains_key(key) || exists|i: int| #[trigger]
                    key_stands_at(tokens, i, key)
            &&& forall|key: Seq<char>| map.contains_key(key) ==> #[trigger] m[key] == map[key]
            &&& forall|i: int, key: Seq<char>| #[trigger]
                key_stands_at(tokens, i, key) ==> m[key] == tokens[i + 2]->Ident_0@
        },
    decreases tokens.len(),
{
    if tokens.len() > 0 {
        if !starts_with_entry(tokens) {
            if entry_form(tokens) {
                assert(tokens[0] is Ident);
                assert(tokens[1] == Token::Punct(':'));
                assert(tokens[2] is Ident);
            }
        } else {
            let key = tokens[0]->Ident_0@;
            assert(key_stands_at(tokens, 0, key));
            if !map.contains_key(key) {
                let more = map.insert(key, tokens[2]->Ident_0@);
                if tokens.len() == 3 {
                    assert forall|i: int, k: Seq<char>| #[trigger]
                        key_stands_at(tokens, i, k) implies i == 0 && k == key by {}
                    assert(entry_form(tokens));
                    assert(keys_differ(tokens, map));
                } else if tokens[3] == Token::Punct(',') {
                    lemma_more_entries(tokens, map);
                } else {
                    if entry_form(tokens) {
                        assert(tokens[3] == Token::Punct(','));
                    }
                }
            }
        }
    }
}

proof fn lemma_more_entries(tokens: Seq<Token>, map: Map<Seq<char>, Seq<char>>)
    requires
        tokens.len() > 3,
        starts_with_entry(tokens),
        tokens[3] == Token::Punct(','),
        !map.contains_key(tokens[0]->Ident_0@),
    ensures
        entries_of(tokens, map) is Ok <==> entry_form(tokens) && keys_differ(tokens, map),
        entries_of(tokens, map) matches Ok(m) ==> {
            &&& forall|key: Seq<char>| #[trigger]
                m.contains_key(key) <==> map.contains_key(key) || exists|i: int| #[trigger]
                    key_stands_at(tokens, i, key)
            &&& forall|key: Seq<char>| map.contains_key(key) ==> #[trigger] m[key] == map[key]
            &&& forall|i: int, key: Seq<char>| #[trigger]
                key_stands_at(tokens, i, key) ==> m[key] == tokens[i + 2]->Ident_0@
        },
    decreases tokens.len(), 0int,
{
    let key = tokens[0]->Ident_0@;
    let value = tokens[2]->Ident_0@;
    let more = map.insert(key, value);
    let rest = tokens.subrange(4, tokens.len() as int);
    law_entries_are_read(rest, more);
    lemma_rest_of_entries(tokens);
    assert(key_stands_at(tokens, 0, key));
    if keys_differ(tokens, map) {
        assert forall|i: int, k: Seq<char>| #[trigger] key_stands_at(rest, i, k) implies
            !more.contains_key(k) by {
            assert(key_stands_at(tokens, i + 4, k));
        }
        assert forall|i: int, j: int, k: Seq<char>|
            #[trigger] key_stands_at(rest, i, k) && #[trigger] key_stands_at(
                rest,
                j,
                k,
            ) implies i == j by {
            assert(key_stands_at(tokens, i + 4, k));
            assert(key_stands_at(tokens, j + 4, k));
        }
    }
    if keys_differ(rest, more) {
        assert forall|i: int, k: Seq<char>| #[trigger] key_stands_at(tokens, i, k) implies
            !map.contains_key(k) by {
            if i >= 4 {
                assert(key_stands_at(rest, i - 4, k));
            }
        }
        assert forall|i: int, j: int, k: Seq<char>|
            #[trigger] key_stands_at(tokens, i, k) && #[trigger] key_stands_at(
                tokens,
                j,
                k,
            ) implies i == j by {
            if i >= 4 {
                assert(key_stands_at(rest, i - 4, k));
            }
            if j >= 4 {
                assert(key_stands_at(rest, j - 4, k));
            }
        }
    }
    match entries_of(tokens, map) {
        Ok(m) => {
            assert forall|k: Seq<char>| #[trigger] m.contains_key(k) <==> map.contains_key(k)
                || exists|i: int| #[trigger] key_stands_at(tokens, i, k) by {
                if exists|i: int| #[trigger] key_stands_at(rest, i, k) {
                    let i = choose|i: int| #[trigger] key_stands_at(rest, i, k);
                    assert(key_stands_at(tokens, i + 4, k));
                }
                if exists|i: int| #[trigger] key_stands_at(tokens, i, k) {
                    let i = choose|i: int| #[trigger] key_stands_at(tokens, i, k);
                    if i >= 4 {
                        assert(key_stands_at(rest, i - 4, k));
                    }
                }
                assert(more.contains_key(k) <==> map.contains_key(k) || k == key);
            }
            assert forall|k: Seq<char>| map.contains_key(k) implies #[trigger] m[k] == map[k] by {
                assert(more.contains_key(k));
            }
            assert forall|i: int, k: Seq<char>| #[trigger] key_stands_at(tokens, i, k) implies m[k]
                == tokens[i + 2]->Ident_0@ by {
                if i >= 4 {
                    assert(key_stands_at(rest, i - 4, k));
                    assert(i + 2 < tokens.len()) by {
                        assert(entry_form(tokens));
                    }
                    assert(rest[i - 4 + 2] == tokens[i + 2]);
                } else {
                    assert(more.contains_key(key));
                    assert(m[key] == more[key]);
                }
            }
        },
        Err(_) => {},
    }
}

/// What is complained of in a list of entries, from its start: the first thing that is not as it
/// should be.
pub proof fn law_entry_faults(tokens: Seq<Token>, map: Map<Seq<char>, Seq<char>>)
    requires
        tokens.len() > 0,
    ensures
        ({
            let r = entries_of(tokens, map);
            let key = tokens[0]->Ident_0@;
            let colon = tokens.len() > 1 && tokens[1] == Token::Punct(':');
            &&& !(tokens[0] is Ident) ==> r is Err && r->Err_0 is NotIdent
            &&& tokens[0] is Ident && tokens.len() == 1 ==> r is Err && r->Err_0 is End
            &&& tokens[0] is Ident && tokens.len() > 1 && !colon ==> r is Err && r->Err_0
                == Malformed::NotPunct(':')
            &&& tokens[0] is Ident && colon && tokens.len() == 2 ==> r is Err && r->Err_0 is End
            &&& tokens[0] is Ident && colon && tokens.len() > 2 && !(tokens[2] is Ident)
                ==> r is Err && r->Err_0 is NotIdent
            &&& tokens[0] is Ident && colon && tokens.len() > 2 && tokens[2] is Ident ==> {
                &&& map.contains_key(key) ==> r is Err && r->Err_0 == Malformed::Duplicate(
                    map[key],
                )
                &&& !map.contains_key(key) && tokens.len() > 3 && tokens[3] != Token::Punct(',')
                    ==> r is Err && r->Err_0 == Malformed::NotPunct(',')
                &&& !map.contains_key(key) && tokens.len() > 3 && tokens[3] == Token::Punct(',')
                    ==> r == entries_of(
                    tokens.subrange(4, tokens.len() as int),
                    map.insert(key, tokens[2]->Ident_0@),
                )
            }
        }),
{
}

/// Entries are read into a map as the laws of entries say, and keys that are new come last.
pub proof fn law_maps_are_read(tokens: &[Token])
    ensures
        forall|map: &mut TextMap, r: Result<(), TokenError>| #[trigger]
            call_ensures(parse_ident_map, (tokens, map), r) ==> {
                &&& r is Ok ==> entries_of(tokens@, (*map)@) == Ok::<_, Malformed>((*final(map))@)
                &&& r matches Err(e) ==> entries_of(tokens@, (*map)@) == Err::<
                    Map<Seq<char>, Seq<char>>,
                    _,
                >(e@)
                &&& r is Ok ==> (*final(map)).keys() == (*map).keys() + entry_keys(tokens@)
            },
{
}

/// The keys of entries that are read are listed in the order of their places.
pub proof fn law_keys_stand_in_order(tokens: Seq<Token>)
    requires
        entry_form(tokens),
    ensures
        entry_keys(tokens).len() == (tokens.len() + 1) / 4,
        forall|n: int|
            0 <= n < entry_keys(tokens).len() ==> #[trigger] entry_keys(tokens)[n] == tokens[4
                * n]->Ident_0@,
    decreases tokens.len(),
{
    if tokens.len() > 0 {
        assert(tokens[0] is Ident);
        assert(tokens[1] == Token::Punct(':'));
        assert(tokens[2] is Ident);
        if tokens.len() > 4 {
            let rest = tokens.subrange(4, tokens.len() as int);
            assert(tokens[3] == Token::Punct(','));
            lemma_rest_of_entries(tokens);
            law_keys_stand_in_order(rest);
            assert forall|n: int| 0 <= n < entry_keys(tokens).len() implies #[trigger] entry_keys(
                tokens,
            )[n] == tokens[4 * n]->Ident_0@ by {
                if n > 0 {
                    assert(entry_keys(tokens)[n] == entry_keys(rest)[n - 1]);
                    assert(rest[4 * (n - 1)] == tokens[4 * n]);
                }
            }
        }
    }
}

/// The tokens of one field.
pub open spec fn one_field(tokens: Seq<Token>) -> bool {
    tokens.len() == 3 && starts_with_field(tokens)
}

/// One field adds its entries to the hooks or to the overrides, by its name, and leaves the other
/// alone; any other name is refused.
pub proof fn law_field_is_read(tokens: Seq<Token>, fields: Fields)
    requires
        one_field(tokens),
    ensures
        ({
            let name = tokens[0]->Ident_0@;
            let inner = tokens[2]->Group_1@;
            let r = fields_of(tokens, fields);
            &&& name == "hooks"@ ==> match entries_of(inner, fields.hooks) {
                Ok(m) => r matches Ok(f) && f.hooks == m && f.override_fns == fields.override_fns,
                Err(e) => r matches Err(x) && x == e,
            }
            &&& name == "override_fns"@ ==> match entries_of(inner, fields.override_fns) {
                Ok(m) => r matches Ok(f) && f.override_fns == m && f.hooks == fields.hooks,
                Err(e) => r matches Err(x) && x == e,
            }
            &&& name != "hooks"@ && name != "override_fns"@ ==> r is Err && r->Err_0
                == Malformed::UnknownField(name)
        }),
{
    reveal_strlit("hooks");
    reveal_strlit("override_fns");
    assert("hooks"@.len() != "override_fns"@.len());
}

/// Fields are read one after the other, with a comma between them; a comma may end them.
pub proof fn law_fields_are_read_in_turn(first: Seq<Token>, rest: Seq<Token>, fields: Fields)
    requires
        one_field(first),
    ensures
        fields_of(first + seq![Token::Punct(',')] + rest, fields) == (match fields_of(
            first,
            fields,
        ) {
            Ok(f) => fields_of(rest, f),
            Err(e) => Err(e),
        }),
        fields_of(Seq::empty(), fields) == Ok::<_, Malformed>(fields),
{
    let all = first + seq![Token::Punct(',')] + rest;
    assert(all[0] == first[0] && all[1] == first[1] && all[2] == first[2]);
    assert(all[3] == Token::Punct(','));
    assert(all.subrange(4, all.len() as int) =~= rest);
}

/// What is complained of in fields, from their start.
pub proof fn law_field_faults(tokens: Seq<Token>, fields: Fields)
    requires
        tokens.len() > 0,
    ensures
        ({
            let r = fields_of(tokens, fields);
            let colon = tokens.len() > 1 && tokens[1] == Token::Punct(':');
            &&& !(tokens[0] is Ident) ==> r is Err && r->Err_0 is NotIdent
            &&& tokens[0] is Ident && tokens.len() == 1 ==> r is Err && r->Err_0 is End
            &&& tokens[0] is Ident && tokens.len() > 1 && !colon ==> r is Err && r->Err_0
                == Malformed::NotPunct(':')
            &&& tokens[0] is Ident && colon && tokens.len() == 2 ==> r is Err && r->Err_0 is End
            &&& tokens[0] is Ident && colon && tokens.len() > 2 && !(tokens[2] is Group)
                ==> r is Err && r->Err_0 == Malformed::NotGroup(Delimiter::Brace)
            &&& tokens[0] is Ident && colon && tokens.len() > 2 && tokens[2] is Group
                && !(tokens[2]->Group_0 is Brace) ==> r is Err && r->Err_0
                == Malformed::OtherGroup(opening(tokens[2]->Group_0))
            &&& tokens.len() > 3 && one_field(tokens.subrange(0, 3)) && tokens[3] != Token::Punct(
                ',',
            ) ==> match fields_of(tokens.subrange(0, 3), fields) {
                Ok(_) => r is Err && r->Err_0 == Malformed::NotPunct(','),
                Err(e) => r matches Err(x) && x == e,
            }
        }),
{
    if tokens.len() > 3 {
        let three = tokens.subrange(0, 3);
        assert(three[0] == tokens[0] && three[1] == tokens[1] && three[2] == tokens[2]);
    }
}

/// The input of the table is a word, a semicolon, and fields that start from nothing.
pub proof fn law_table_input(tokens: Seq<Token>, fields: Seq<Token>, name: String)
    ensures
        tokens == seq![Token::Ident(name), Token::Punct(';')] + fields ==> table_input_of(tokens)
            == fields_of(
            fields,
            Fields { hooks: Map::empty(), override_fns: Map::empty() },
        ),
        tokens.len() == 0 ==> (table_input_of(tokens) matches Err(e) && e is End),
        tokens.len() > 0 && !(tokens[0] is Ident) ==> (table_input_of(tokens) matches Err(e) && e
            is NotIdent),
        tokens.len() == 1 && tokens[0] is Ident ==> (table_input_of(tokens) matches Err(e) && e
            is End),
        tokens.len() > 1 && tokens[0] is Ident && tokens[1] != Token::Punct(';') ==> (
        table_input_of(tokens) matches Err(e) && e == Malformed::NotPunct(';')),
        forall|t: &[Token], r: Result<TableInput, TokenError>| #[trigger]
            call_ensures(parse_table_input, (t,), r) ==> match r {
                Ok(input) => table_input_of(t@) == Ok::<_, Malformed>(
                    Fields { hooks: input.hooks@, override_fns: input.override_fns@ },
                ) && input.crate_name@ == t@[0]->Ident_0@,
                Err(e) => table_input_of(t@) == Err::<Fields, _>(e@),
            },
{
    if tokens == seq![Token::Ident(name), Token::Punct(';')] + fields {
        assert(tokens.subrange(2, tokens.len() as int) =~= fields);
    }
}

/// The next token is taken if there is one. It is given out if it is what was asked for, and
/// complained of if not; at the end nothing is taken.
pub proof fn law_tokens_are_taken()
    ensures
        forall|c: &mut Cursor<'static>, p: char, r: Result<(), TokenError>| #[trigger]
            call_ensures(Cursor::<'static>::expect_punct, (c, p), r) && (*c).pos
                < (*c).tokens@.len() ==> {
                &&& final(c).pos == (*c).pos + 1
                &&& final(c).tokens == (*c).tokens
                &&& r is Ok <==> (*c).tokens@[(*c).pos as int] == Token::Punct(p)
                &&& r matches Err(e) ==> e == TokenError::NotPunct(p)
            },
        forall|c: &mut Cursor<'static>, p: char, r: Result<(), TokenError>| #[trigger]
            call_ensures(Cursor::<'static>::expect_punct, (c, p), r) && (*c).pos
                == (*c).tokens@.len() ==> final(c).pos == (*c).pos && (r is Err && r->Err_0
                is End),
        opening(Delimiter::Parenthesis) == '(',
        opening(Delimiter::Bracket) == '[',
        opening(Delimiter::Brace) == '{',
        opening(Delimiter::Invisible) == '\0',
        forall|d: Delimiter, r: char| #[trigger]
            call_ensures(delimiter_start, (d,), r) ==> r == opening(d),
{
}

/// The same of words and groups.
pub proof fn law_words_and_groups_are_taken(d: Delimiter)
    ensures
        forall|c: &mut Cursor<'static>, r: Result<&'static String, TokenError>| #[trigger]
            call_ensures(Cursor::<'static>::expect_ident, (c,), r) && (*c).pos
                < (*c).tokens@.len() ==> {
                let next = (*c).tokens@[(*c).pos as int];
                &&& final(c).pos == (*c).pos + 1
                &&& next is Ident ==> (r matches Ok(s) && *s == next->Ident_0)
                &&& !(next is Ident) ==> (r matches Err(e) && e is NotIdent)
            },
        forall|c: &mut Cursor<'static>, r: Result<&'static Vec<Token>, TokenError>| #[trigger]
            call_ensures(Cursor::<'static>::expect_group, (c, d), r) && (*c).pos
                < (*c).tokens@.len() ==> {
                let next = (*c).tokens@[(*c).pos as int];
                &&& final(c).pos == (*c).pos + 1
                &&& next is Group && next->Group_0 == d ==> (r matches Ok(v) && *v
                    == next->Group_1)
                &&& next is Group && next->Group_0 != d ==> (r matches Err(e) && e
                    == TokenError::OtherGroup(opening(next->Group_0)))
                &&& !(next is Group) ==> (r matches Err(e) && e == TokenError::NotGroup(d))
            },
{
}

} // verus!
