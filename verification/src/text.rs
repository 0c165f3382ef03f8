//! Strings and byte strings: the comparisons and cuts that the rest of the crate is built on.

use vstd::prelude::*;
use vstd::string::*;
use vstd::utf8::*;

verus! {

/// The contents of a list of byte strings.
pub open spec fn byte_names(list: Seq<Vec<u8>>) -> Seq<Seq<u8>> {
    list.map_values(|n: Vec<u8>| n@)
}

/// The contents of a list of strings.
pub open spec fn texts(list: Seq<String>) -> Seq<Seq<char>> {
    list.map_values(|s: String| s@)
}

/// Whether `s` begins with `prefix`.
pub open spec fn has_prefix(s: Seq<char>, prefix: Seq<char>) -> bool {
    prefix.len() <= s.len() && s.subrange(0, prefix.len() as int) == prefix
}

/// Whether `s` ends with `suffix`.
pub open spec fn has_suffix(s: Seq<char>, suffix: Seq<char>) -> bool {
    suffix.len() <= s.len() && s.subrange(s.len() - suffix.len(), s.len() as int) == suffix
}

/// `s` without its first `prefix.len()` characters, if they are `prefix`.
pub open spec fn without_prefix(s: Seq<char>, prefix: Seq<char>) -> Option<Seq<char>> {
    if has_prefix(s, prefix) {
        Some(s.subrange(prefix.len() as int, s.len() as int))
    } else {
        None
    }
}

/// `s` without its last `suffix.len()` characters, if they are `suffix`.
pub open spec fn without_suffix(s: Seq<char>, suffix: Seq<char>) -> Option<Seq<char>> {
    if has_suffix(s, suffix) {
        Some(s.subrange(0, s.len() - suffix.len()))
    } else {
        None
    }
}

/// The view of an optional string.
pub open spec fn opt_text(s: Option<String>) -> Option<Seq<char>> {
    match s {
        Some(s) => Some(s@),
        None => None,
    }
}

/// The view of an optional byte string.
pub open spec fn opt_bytes(b: Option<Vec<u8>>) -> Option<Seq<u8>> {
    match b {
        Some(b) => Some(b@),
        None => None,
    }
}

pub fn bytes_eq(a: &[u8], b: &[u8]) -> (r: bool)
    ensures
        r == (a@ == b@),
{
    if a.len() != b.len() {
        return false;
    }
    let mut i: usize = 0;
    while i < a.len()
        invariant
            i <= a.len(),
            a.len() == b.len(),
            forall|j: int| 0 <= j < i ==> a@[j] == b@[j],
        decreases a.len() - i,
    {
        if a[i] != b[i] {
            assert(a@[i as int] != b@[i as int]);
            return false;
        }
        i += 1;
    }
    assert(a@ =~= b@);
    true
}

/// Copies a byte string.
pub fn copy_bytes(a: &[u8]) -> (r: Vec<u8>)
    ensures
        r@ == a@,
{
    let mut out: Vec<u8> = Vec::new();
    let mut i: usize = 0;
    while i < a.len()
        invariant
            i <= a.len(),
            out@ == a@.subrange(0, i as int),
        decreases a.len() - i,
    {
        out.push(a[i]);
        i += 1;
        assert(out@ =~= a@.subrange(0, i as int));
    }
    assert(a@.subrange(0, a@.len() as int) =~= a@);
    out
}

/// Whether the list of byte strings holds `name`.
pub fn has_name(list: &[Vec<u8>], name: &[u8]) -> (r: bool)
    ensures
        r == byte_names(list@).contains(name@),
{
    let mut i: usize = 0;
    while i < list.len()
        invariant
            i <= list.len(),
            forall|j: int| 0 <= j < i ==> byte_names(list@)[j] != name@,
        decreases list.len() - i,
    {
        if bytes_eq(list[i].as_slice(), name) {
            assert(byte_names(list@)[i as int] == name@);
            return true;
        }
        i += 1;
    }
    false
}

pub fn str_eq(a: &str, b: &str) -> (r: bool)
    ensures
        r == (a@ == b@),
{
    let n: usize = a.unicode_len();
    if n != b.unicode_len() {
        return false;
    }
    let mut i: usize = 0;
    while i < n
        invariant
            i <= n,
            n == a@.len(),
            n == b@.len(),
            forall|j: int| 0 <= j < i ==> a@[j] == b@[j],
        decreases n - i,
    {
        if a.get_char(i) != b.get_char(i) {
            return false;
        }
        i += 1;
    }
    assert(a@ =~= b@);
    true
}

pub fn starts_with(s: &str, prefix: &str) -> (r: bool)
    ensures
        r == has_prefix(s@, prefix@),
{
    let n: usize = prefix.unicode_len();
    if n > s.unicode_len() {
        return false;
    }
    str_eq(s.substring_char(0, n), prefix)
}

/// `s` without `prefix` at its start, or `None` if it does not start so.
pub fn strip_prefix(s: &str, prefix: &str) -> (r: Option<String>)
    ensures
        opt_text(r) == without_prefix(s@, prefix@),
{
    if starts_with(s, prefix) {
        Some(s.substring_char(prefix.unicode_len(), s.unicode_len()).to_owned())
    } else {
        None
    }
}

/// `s` without `suffix` at its end, or `None` if it does not end so.
pub fn strip_suffix(s: &str, suffix: &str) -> (r: Option<String>)
    ensures
        opt_text(r) == without_suffix(s@, suffix@),
{
    let n: usize = s.unicode_len();
    let m: usize = suffix.unicode_len();
    if m <= n && str_eq(s.substring_char(n - m, n), suffix) {
        Some(s.substring_char(0, n - m).to_owned())
    } else {
        None
    }
}

/// Whether the list of strings holds `name`.
pub fn has_text(list: &[String], name: &str) -> (r: bool)
    ensures
        r == texts(list@).contains(name@),
{
    let mut i: usize = 0;
    while i < list.len()
        invariant
            i <= list.len(),
            forall|j: int| 0 <= j < i ==> texts(list@)[j] != name@,
        decreases list.len() - i,
    {
        if str_eq(list[i].as_str(), name) {
            assert(texts(list@)[i as int] == name@);
            return true;
        }
        i += 1;
    }
    false
}

/// `a` followed by `b`.
pub fn join(a: &str, b: &str) -> (r: String)
    ensures
        r@ == a@ + b@,
{
    let mut out: String = a.to_owned();
    out.append(b);
    out
}

/// `n` is the position of the first zero byte of `buf`.
pub open spec fn nul_at(buf: Seq<u8>, n: int) -> bool {
    &&& 0 <= n < buf.len()
    &&& buf[n] == 0
    &&& forall|j: int| 0 <= j < n ==> buf[j] != 0
}

/// The bytes before the first zero byte; `None` if there is no zero byte.
pub open spec fn c_string(buf: Seq<u8>) -> Option<Seq<u8>> {
    if exists|n: int| nul_at(buf, n) {
        Some(buf.subrange(0, choose|n: int| nul_at(buf, n)))
    } else {
        None
    }
}

/// Cuts a buffer at its first zero byte.
pub fn bytes_until_nul(buf: &[u8]) -> (r: Option<Vec<u8>>)
    ensures
        opt_bytes(r) == c_string(buf@),
{
    let mut out: Vec<u8> = Vec::new();
    let mut i: usize = 0;
    while i < buf.len()
        invariant
            i <= buf.len(),
            out@ == buf@.subrange(0, i as int),
            forall|j: int| 0 <= j < i ==> buf@[j] != 0,
        decreases buf.len() - i,
    {
        if buf[i] == 0 {
            assert(nul_at(buf@, i as int));
            assert forall|n: int| nul_at(buf@, n) implies n == i by {}
            return Some(out);
        }
        out.push(buf[i]);
        i += 1;
        assert(out@ =~= buf@.subrange(0, i as int));
    }
    None
}

/// `std::str::from_utf8`, copied into an owned string: it succeeds exactly on well-formed UTF-8,
/// and gives the characters that the bytes encode.
#[verifier::external_body]
fn decode_str(bytes: &[u8]) -> (r: Option<String>)
    ensures
        r is Some <==> valid_utf8(bytes@),
        r matches Some(s) ==> s@ == decode_utf8(bytes@),
{
    std::str::from_utf8(bytes).ok().map(str::to_owned)
}

/// The characters of a zero-terminated UTF-8 buffer; `None` if there is no zero byte or the
/// bytes before it are not UTF-8.
pub open spec fn c_text(buf: Seq<u8>) -> Option<Seq<char>> {
    match c_string(buf) {
        Some(bytes) => if valid_utf8(bytes) {
            Some(decode_utf8(bytes))
        } else {
            None
        },
        None => None,
    }
}

/// Reads a zero-terminated UTF-8 buffer.
pub fn text_until_nul(buf: &[u8]) -> (r: Option<String>)
    ensures
        opt_text(r) == c_text(buf@),
{
    match bytes_until_nul(buf) {
        Some(bytes) => decode_str(bytes.as_slice()),
        None => None,
    }
}

/// The character of a hexadecimal digit.
pub open spec fn hex_digit(d: int) -> char {
    if d < 10 {
        (('0' as int) + d) as char
    } else {
        (('a' as int) + (d - 10)) as char
    }
}

/// The hexadecimal digits of a number, without leading zeros; zero has one digit.
pub open spec fn hex_digits(n: nat) -> Seq<char>
    decreases n,
{
    if n < 16 {
        seq![hex_digit(n as int)]
    } else {
        hex_digits(n / 16).push(hex_digit((n % 16) as int))
    }
}

/// The text of one hexadecimal digit.
fn hex_str(d: u64) -> (r: &'static str)
    requires
        d < 16,
    ensures
        r@ == seq![hex_digit(d as int)],
{
    proof {
        reveal_strlit("0");
        reveal_strlit("1");
        reveal_strlit("2");
        reveal_strlit("3");
        reveal_strlit("4");
        reveal_strlit("5");
        reveal_strlit("6");
        reveal_strlit("7");
        reveal_strlit("8");
        reveal_strlit("9");
        reveal_strlit("a");
        reveal_strlit("b");
        reveal_strlit("c");
        reveal_strlit("d");
        reveal_strlit("e");
        reveal_strlit("f");
    }
    let r = match d {
        0 => "0",
        1 => "1",
        2 => "2",
        3 => "3",
        4 => "4",
        5 => "5",
        6 => "6",
        7 => "7",
        8 => "8",
        9 => "9",
        10 => "a",
        11 => "b",
        12 => "c",
        13 => "d",
        14 => "e",
        _ => "f",
    };
    assert(r@ =~= seq![hex_digit(d as int)]);
    r
}

/// Writes the hexadecimal digits of a number behind a text.
fn append_hex(out: &mut String, n: u64)
    ensures
        final(out)@ == old(out)@ + hex_digits(n as nat),
    decreases n,
{
    if n >= 16 {
        append_hex(out, n / 16);
    }
    out.append(hex_str(n % 16));
    assert(out@ =~= old(out)@ + hex_digits(n as nat));
}

/// A number in hexadecimal, with its prefix.
pub fn hex_text(n: u64) -> (r: String)
    ensures
        r@ == "0x"@ + hex_digits(n as nat),
{
    let mut out: String = "0x".to_owned();
    append_hex(&mut out, n);
    out
}

/// Lists of strings are looked at member by member.
pub proof fn law_lists_are_seen_member_by_member(a: Seq<String>, b: Seq<Vec<u8>>, i: int)
    ensures
        texts(a).len() == a.len(),
        byte_names(b).len() == b.len(),
        0 <= i < a.len() ==> texts(a)[i] == a[i]@,
        0 <= i < b.len() ==> byte_names(b)[i] == b[i]@,
        opt_text(None) is None,
        opt_bytes(None) is None,
        0 <= i < a.len() ==> opt_text(Some(a[i])) == Some(a[i]@),
        0 <= i < b.len() ==> opt_bytes(Some(b[i])) == Some(b[i]@),
{
}

/// Two strings are equal exactly if they are of one length and agree at every place.
pub proof fn law_equal_strings_agree(a: &str, b: &str, x: &[u8], y: &[u8], s: bool, t: bool)
    requires
        call_ensures(str_eq, (a, b), s),
        call_ensures(bytes_eq, (x, y), t),
    ensures
        s <==> a@.len() == b@.len() && forall|i: int|
            0 <= i < a@.len() ==> #[trigger] a@[i] == b@[i],
        t <==> x@.len() == y@.len() && forall|i: int|
            0 <= i < x@.len() ==> #[trigger] x@[i] == y@[i],
{
    if a@.len() == b@.len() && forall|i: int| 0 <= i < a@.len() ==> #[trigger] a@[i] == b@[i] {
        assert(a@ =~= b@);
    }
    if x@.len() == y@.len() && forall|i: int| 0 <= i < x@.len() ==> #[trigger] x@[i] == y@[i] {
        assert(x@ =~= y@);
    }
}

/// A list holds a string exactly if one of its members is equal to it.
pub proof fn law_member_is_found(
    list: &[String],
    name: &str,
    r: bool,
    bytes: &[Vec<u8>],
    word: &[u8],
    t: bool,
)
    requires
        call_ensures(has_text, (list, name), r),
        call_ensures(has_name, (bytes, word), t),
    ensures
        r <==> exists|i: int| 0 <= i < list@.len() && (#[trigger] list@[i])@ == name@,
        t <==> exists|i: int| 0 <= i < bytes@.len() && (#[trigger] bytes@[i])@ == word@,
{
    if r {
        let i = choose|i: int| 0 <= i < texts(list@).len() && texts(list@)[i] == name@;
        assert(list@[i]@ == name@);
    }
    if exists|i: int| 0 <= i < list@.len() && (#[trigger] list@[i])@ == name@ {
        let i = choose|i: int| 0 <= i < list@.len() && (#[trigger] list@[i])@ == name@;
        assert(texts(list@)[i] == name@);
    }
    if t {
        let i = choose|i: int| 0 <= i < byte_names(bytes@).len() && byte_names(bytes@)[i] == word@;
        assert(bytes@[i]@ == word@);
    }
    if exists|i: int| 0 <= i < bytes@.len() && (#[trigger] bytes@[i])@ == word@ {
        let i = choose|i: int| 0 <= i < bytes@.len() && (#[trigger] bytes@[i])@ == word@;
        assert(byte_names(bytes@)[i] == word@);
    }
}

/// What is left of a string without its start is exactly what gives the string when it is put
/// behind that start again; and so for its end.
pub proof fn law_cut_and_join(s: Seq<char>, part: Seq<char>, rest: Seq<char>)
    ensures
        without_prefix(s, part) == Some(rest) <==> s == part + rest,
        without_suffix(s, part) == Some(rest) <==> s == rest + part,
        has_prefix(s, part) <==> without_prefix(s, part) is Some,
        has_suffix(s, part) <==> without_suffix(s, part) is Some,
        has_prefix(part + rest, part),
        has_suffix(rest + part, part),
{
    assert((part + rest).subrange(0, part.len() as int) =~= part);
    assert((part + rest).subrange(part.len() as int, (part + rest).len() as int) =~= rest);
    assert((rest + part).subrange(rest.len() as int, (rest + part).len() as int) =~= part);
    assert((rest + part).subrange(0, rest.len() as int) =~= rest);
    if has_prefix(s, part) {
        assert(s =~= part + s.subrange(part.len() as int, s.len() as int));
    }
    if has_suffix(s, part) {
        assert(s =~= s.subrange(0, s.len() - part.len()) + part);
    }
}

/// Cutting a string and putting two together do what they say to the characters.
pub proof fn law_cutting_calls(
    s: &str,
    part: &str,
    front: Option<String>,
    back: Option<String>,
    starts: bool,
    whole: String,
)
    requires
        call_ensures(strip_prefix, (s, part), front),
        call_ensures(strip_suffix, (s, part), back),
        call_ensures(starts_with, (s, part), starts),
        call_ensures(join, (s, part), whole),
    ensures
        front matches Some(rest) ==> part@ + rest@ == s@,
        back matches Some(rest) ==> rest@ + part@ == s@,
        front is Some <==> exists|rest: Seq<char>| #[trigger] (part@ + rest) == s@,
        back is Some <==> exists|rest: Seq<char>| #[trigger] (rest + part@) == s@,
        starts <==> front is Some,
        whole@.len() == s@.len() + part@.len(),
        forall|i: int| 0 <= i < s@.len() ==> whole@[i] == #[trigger] s@[i],
        forall|i: int| 0 <= i < part@.len() ==> whole@[s@.len() + i] == #[trigger] part@[i],
{
    match front {
        Some(rest) => law_cut_and_join(s@, part@, rest@),
        None => {
            assert forall|rest: Seq<char>| #[trigger] (part@ + rest) != s@ by {
                law_cut_and_join(s@, part@, rest);
            }
        },
    }
    match back {
        Some(rest) => law_cut_and_join(s@, part@, rest@),
        None => {
            assert forall|rest: Seq<char>| #[trigger] (rest + part@) != s@ by {
                law_cut_and_join(s@, part@, rest);
            }
        },
    }
}

/// A buffer holds the bytes before its first zero byte. Without a zero byte it holds nothing.
pub proof fn law_buffer_ends_at_zero(buf: Seq<u8>, bytes: Seq<u8>)
    ensures
        c_string(buf) == Some(bytes) <==> bytes.len() < buf.len() && buf[bytes.len() as int] == 0
            && (forall|i: int| 0 <= i < bytes.len() ==> #[trigger] bytes[i] == buf[i] && bytes[i]
            != 0),
        c_string(buf) is None <==> forall|i: int| 0 <= i < buf.len() ==> #[trigger] buf[i] != 0,
{
    if c_string(buf) == Some(bytes) {
        let n = choose|n: int| nul_at(buf, n);
        assert(bytes.len() == n);
        assert forall|i: int| 0 <= i < bytes.len() implies #[trigger] bytes[i] == buf[i]
            && bytes[i] != 0 by {}
    }
    if bytes.len() < buf.len() && buf[bytes.len() as int] == 0 && (forall|i: int|
        0 <= i < bytes.len() ==> #[trigger] bytes[i] == buf[i] && bytes[i] != 0) {
        let n = bytes.len() as int;
        assert forall|j: int| 0 <= j < n implies buf[j] != 0 by {
            assert(bytes[j] == buf[j]);
        }
        assert(nul_at(buf, n));
        assert forall|k: int| nul_at(buf, k) implies k == n by {}
        assert(buf.subrange(0, n) =~= bytes);
    }
    if c_string(buf) is None {
        assert forall|i: int| 0 <= i < buf.len() implies #[trigger] buf[i] != 0 by {
            if buf[i] == 0 {
                lemma_first_zero(buf, i);
            }
        }
    }
}

proof fn lemma_first_zero(buf: Seq<u8>, i: int)
    requires
        0 <= i < buf.len(),
        buf[i] == 0,
    ensures
        exists|n: int| nul_at(buf, n),
    decreases i,
{
    if exists|j: int| 0 <= j < i && buf[j] == 0 {
        let j = choose|j: int| 0 <= j < i && buf[j] == 0;
        lemma_first_zero(buf, j);
    } else {
        assert(nul_at(buf, i));
    }
}

/// The text of a buffer is what its bytes before the first zero byte spell in UTF-8, if they do.
pub proof fn law_buffer_is_text(
    buf: &[u8],
    bytes: Option<Vec<u8>>,
    text: Option<String>,
    copy: Vec<u8>,
)
    requires
        call_ensures(bytes_until_nul, (buf,), bytes),
        call_ensures(text_until_nul, (buf,), text),
        call_ensures(copy_bytes, (buf,), copy),
    ensures
        copy@ == buf@,
        bytes matches Some(b) ==> c_string(buf@) == Some(b@),
        bytes is None <==> forall|i: int| 0 <= i < buf@.len() ==> #[trigger] buf@[i] != 0,
        text matches Some(t) ==> bytes matches Some(b) && valid_utf8(b@) && t@ == decode_utf8(b@),
        text is None ==> (bytes matches Some(b) ==> !valid_utf8(b@)),
        c_text(buf@) == opt_text(text),
{
    law_buffer_ends_at_zero(buf@, Seq::empty());
}

/// The value of a hexadecimal digit.
pub open spec fn digit_value(c: char) -> int {
    if '0' <= c && c <= '9' {
        c as int - '0' as int
    } else {
        10 + (c as int - 'a' as int)
    }
}

/// The value of a row of hexadecimal digits.
pub open spec fn hex_value(digits: Seq<char>) -> int
    decreases digits.len(),
{
    if digits.len() == 0 {
        0
    } else {
        hex_value(digits.drop_last()) * 16 + digit_value(digits.last())
    }
}

/// The digits of a number have the number's value; they are digits or small letters up to f, and
/// the first is not zero unless the number is.
pub proof fn law_hex_digits_have_the_value(n: nat)
    ensures
        hex_value(hex_digits(n)) == n,
        hex_digits(n).len() > 0,
        n > 0 ==> hex_digits(n)[0] != '0',
        n == 0 ==> hex_digits(n) == seq!['0'],
        forall|i: int|
            0 <= i < hex_digits(n).len() ==> ('0' <= #[trigger] hex_digits(n)[i] <= '9') || ('a'
                <= hex_digits(n)[i] <= 'f'),
    decreases n,
{
    let digits = hex_digits(n);
    if n < 16 {
        let one = seq![hex_digit(n as int)];
        assert(one.drop_last() =~= Seq::<char>::empty());
        assert(one.last() == hex_digit(n as int));
        reveal_with_fuel(hex_value, 2);
    } else {
        law_hex_digits_have_the_value(n / 16);
        let before = hex_digits(n / 16);
        assert(digits.drop_last() =~= before);
        assert(digits[0] == before[0]);
        assert forall|i: int| 0 <= i < digits.len() implies ('0' <= #[trigger] digits[i] <= '9')
            || ('a' <= digits[i] <= 'f') by {
            if i < before.len() {
                assert(digits[i] == before[i]);
            }
        }
    }
}

/// A number is written with its prefix and its digits.
pub proof fn law_hex_text_has_the_value(n: u64, r: String)
    requires
        call_ensures(hex_text, (n,), r),
    ensures
        r@.len() > 2,
        r@[0] == '0' && r@[1] == 'x',
        hex_value(r@.subrange(2, r@.len() as int)) == n,
{
    reveal_strlit("0x");
    law_hex_digits_have_the_value(n as nat);
    assert(r@.subrange(2, r@.len() as int) =~= hex_digits(n as nat));
}

} // verus!
