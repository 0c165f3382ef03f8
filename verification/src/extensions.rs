//! Vulkan extension lists: what the layer needs beyond what the runtime or the application asks
//! for, and how the two are put together.

use crate::registry::{RegisterationError, WithHook};
use crate::text::{byte_names, copy_bytes, has_name, opt_bytes};
use crate::xr_result::{XrErr, ERROR_HANDLE_INVALID, ERROR_VALIDATION_FAILURE, SUCCESS};
use vstd::prelude::*;
use vstd::string::*;
use vstd::utf8::*;

verus! {

/// The byte that stands between two names in a list.
pub const SPACE: u8 = 32;

/// The instance extensions that the layer needs.
pub open spec fn required_instance_names() -> Seq<Seq<u8>> {
    seq![
        encode_utf8("VK_KHR_external_memory_capabilities"@),
        encode_utf8("VK_KHR_get_physical_device_properties2"@),
        encode_utf8("VK_KHR_xcb_surface"@),
    ]
}

/// The device extensions that the layer needs.
pub open spec fn required_device_names() -> Seq<Seq<u8>> {
    seq![encode_utf8("VK_KHR_copy_commands2"@)]
}

pub fn required_vk_instance_extensions() -> (r: Vec<Vec<u8>>)
    ensures
        byte_names(r@) == required_instance_names(),
{
    let mut out: Vec<Vec<u8>> = Vec::new();
    out.push(copy_bytes("VK_KHR_external_memory_capabilities".as_bytes()));
    out.push(copy_bytes("VK_KHR_get_physical_device_properties2".as_bytes()));
    out.push(copy_bytes("VK_KHR_xcb_surface".as_bytes()));
    assert(byte_names(out@) =~= required_instance_names());
    out
}

pub fn required_vk_device_extensions() -> (r: Vec<Vec<u8>>)
    ensures
        byte_names(r@) == required_device_names(),
{
    let mut out: Vec<Vec<u8>> = Vec::new();
    out.push(copy_bytes("VK_KHR_copy_commands2".as_bytes()));
    assert(byte_names(out@) =~= required_device_names());
    out
}

/// `list[from..to]` is one of the words of a list whose words are separated by single spaces.
pub open spec fn word_at(list: Seq<u8>, from: int, to: int) -> bool {
    &&& 0 <= from <= to <= list.len()
    &&& from == 0 || list[from - 1] == SPACE
    &&& to == list.len() || list[to] == SPACE
    &&& forall|i: int| from <= i < to ==> list[i] != SPACE
}

/// Whether the space-separated list holds `word`. The empty list holds the empty word.
pub open spec fn lists_word(list: Seq<u8>, word: Seq<u8>) -> bool {
    exists|from: int, to: int| #[trigger]
        word_at(list, from, to) && list.subrange(from, to) == word
}

/// The required names that the list does not hold, in their order.
pub open spec fn missing_words(required: Seq<Seq<u8>>, list: Seq<u8>) -> Seq<Seq<u8>> {
    required.filter(|e: Seq<u8>| !lists_word(list, e))
}

/// The list with `extras` put behind it, each after a space unless nothing stands before it.
pub open spec fn extended_list(list: Seq<u8>, extras: Seq<Seq<u8>>) -> Seq<u8>
    decreases extras.len(),
{
    if extras.len() == 0 {
        list
    } else {
        let before = extended_list(list, extras.drop_last());
        (if before.len() == 0 {
            before
        } else {
            before.push(SPACE)
        }) + extras.last()
    }
}

/// What the application is told to enable: the runtime's list and what the layer adds to it.
pub open spec fn offered_list(list: Seq<u8>, required: Seq<Seq<u8>>) -> Seq<u8> {
    extended_list(list, missing_words(required, list))
}

/// `words` holds exactly the words of the list.
pub open spec fn holds_words(list: Seq<u8>, words: Seq<Seq<u8>>) -> bool {
    forall|w: Seq<u8>| #[trigger] words.contains(w) <==> lists_word(list, w)
}

/// Cuts a list at its spaces. A list without spaces is one word, so the empty list is one empty
/// word.
pub fn split_words(list: &[u8]) -> (r: Vec<Vec<u8>>)
    ensures
        holds_words(list@, byte_names(r@)),
{
    let mut out: Vec<Vec<u8>> = Vec::new();
    let mut word: Vec<u8> = Vec::new();
    let ghost mut ends: Seq<(int, int)> = Seq::empty();
    let mut start: usize = 0;
    let mut i: usize = 0;
    while i < list.len()
        invariant
            start <= i <= list.len(),
            word@ == list@.subrange(start as int, i as int),
            start == 0 || list@[start - 1] == SPACE,
            forall|j: int| start <= j < i ==> list@[j] != SPACE,
            ends.len() == out.len(),
            forall|k: int|
                0 <= k < ends.len() ==> word_at(list@, #[trigger] ends[k].0, ends[k].1)
                    && out@[k]@ == list@.subrange(ends[k].0, ends[k].1),
            forall|from: int, to: int| #[trigger]
                word_at(list@, from, to) && to < start ==> exists|k: int|
                    0 <= k < ends.len() && #[trigger] ends[k] == (from, to),
        decreases list.len() - i,
    {
        if list[i] == SPACE {
            let ghost before = out@;
            out.push(word);
            word = Vec::new();
            proof {
                let old_start = start as int;
                let old_ends = ends;
                ends = ends.push((start as int, i as int));
                assert(word_at(list@, start as int, i as int));
                assert forall|from: int, to: int| #[trigger]
                    word_at(list@, from, to) && to < i + 1 implies exists|k: int|
                    0 <= k < ends.len() && #[trigger] ends[k] == (from, to) by {
                    if to < old_start {
                        let k = choose|k: int|
                            0 <= k < old_ends.len() && #[trigger] old_ends[k] == (from, to);
                        assert(ends[k] == (from, to));
                    } else {
                        // A word that ends in this stretch is the whole of it.
                        assert(to == i);
                        if from < old_start {
                            assert(list@[old_start - 1] == SPACE);
                        }
                        assert(from == old_start);
                        assert(ends[ends.len() - 1] == (from, to));
                    }
                }
            }
            i += 1;
            start = i;
        } else {
            word.push(list[i]);
            i += 1;
        }
        assert(word@ =~= list@.subrange(start as int, i as int));
    }
    let ghost last = word@;
    out.push(word);
    proof {
        let n = list@.len() as int;
        let old_ends = ends;
        ends = ends.push((start as int, n));
        assert(word_at(list@, start as int, n));
        assert forall|w: Seq<u8>| #[trigger] byte_names(out@).contains(w) implies lists_word(
            list@,
            w,
        ) by {
            let k = choose|k: int| 0 <= k < byte_names(out@).len() && byte_names(out@)[k] == w;
            assert(word_at(list@, ends[k].0, ends[k].1));
        }
        assert forall|w: Seq<u8>| lists_word(list@, w) implies #[trigger] byte_names(
            out@,
        ).contains(w) by {
            let (from, to) = choose|from: int, to: int| #[trigger]
                word_at(list@, from, to) && list@.subrange(from, to) == w;
            if to < start {
                let k = choose|k: int|
                    0 <= k < old_ends.len() && #[trigger] old_ends[k] == (from, to);
                assert(ends[k] == (from, to));
                assert(byte_names(out@)[k] == w);
            } else {
                if to < n {
                    assert(list@[to] == SPACE);
                }
                if from < start {
                    assert(list@[start - 1] == SPACE);
                }
                assert(from == start && to == n);
                assert(byte_names(out@)[out@.len() - 1] == w);
            }
        }
    }
    out
}

/// `names` holds exactly what is required and not listed.
pub open spec fn holds_missing(
    required: Seq<Seq<u8>>,
    listed: Seq<Seq<u8>>,
    names: Seq<Seq<u8>>,
) -> bool {
    forall|n: Seq<u8>| #[trigger] names.contains(n) <==> required.contains(n) && !listed.contains(n)
}

/// The required names that `listed` does not hold, in their order.
pub fn names_not_in(required: &[Vec<u8>], listed: &[Vec<u8>]) -> (r: Vec<Vec<u8>>)
    ensures
        byte_names(r@) == byte_names(required@).filter(
            |e: Seq<u8>| !byte_names(listed@).contains(e),
        ),
        holds_missing(byte_names(required@), byte_names(listed@), byte_names(r@)),
{
    let mut out: Vec<Vec<u8>> = Vec::new();
    let ghost all = byte_names(required@);
    let ghost keep = |e: Seq<u8>| !byte_names(listed@).contains(e);
    proof {
        reveal(Seq::filter);
        assert(all.subrange(0, 0).filter(keep) =~= Seq::empty());
    }
    let mut i: usize = 0;
    while i < required.len()
        invariant
            i <= required.len(),
            all == byte_names(required@),
            keep == (|e: Seq<u8>| !byte_names(listed@).contains(e)),
            byte_names(out@) == all.subrange(0, i as int).filter(keep),
        decreases required.len() - i,
    {
        proof {
            reveal(Seq::filter);
            assert(all.subrange(0, i + 1).drop_last() =~= all.subrange(0, i as int));
            assert(all[i as int] == required@[i as int]@);
        }
        if !has_name(listed, required[i].as_slice()) {
            let ghost before = out@;
            out.push(copy_bytes(required[i].as_slice()));
            assert(byte_names(out@) =~= byte_names(before).push(all[i as int]));
        }
        i += 1;
    }
    assert(all.subrange(0, all.len() as int) =~= all);
    proof {
        let kept = byte_names(out@);
        assert forall|n: Seq<u8>| #[trigger] kept.contains(n) <==> all.contains(n) && !byte_names(
            listed@,
        ).contains(n) by {
            if kept.contains(n) {
                let k = choose|k: int| 0 <= k < kept.len() && kept[k] == n;
                all.lemma_filter_pred(keep, k);
                lemma_filtered_from(all, keep, k);
            }
            if all.contains(n) && keep(n) {
                let k = choose|k: int| 0 <= k < all.len() && all[k] == n;
                all.lemma_filter_contains(keep, k);
            }
        }
    }
    out
}

/// Appends `bytes` to `buf`.
fn append_bytes(buf: &mut Vec<u8>, bytes: &[u8])
    ensures
        final(buf)@ == old(buf)@ + bytes@,
{
    let mut i: usize = 0;
    while i < bytes.len()
        invariant
            i <= bytes.len(),
            buf@ == old(buf)@ + bytes@.subrange(0, i as int),
        decreases bytes.len() - i,
    {
        buf.push(bytes[i]);
        i += 1;
        assert(buf@ =~= old(buf)@ + bytes@.subrange(0, i as int));
    }
    assert(bytes@.subrange(0, bytes@.len() as int) =~= bytes@);
}

/// Puts the required names that are missing behind the runtime's list.
pub fn offer_extensions(list: &[u8], required: &[Vec<u8>]) -> (r: Vec<u8>)
    ensures
        r@ == offered_list(list@, byte_names(required@)),
{
    let words = split_words(list);
    let extras = names_not_in(required, words.as_slice());
    let ghost names = byte_names(extras@);
    proof {
        let a = |e: Seq<u8>| !byte_names(words@).contains(e);
        let b = |e: Seq<u8>| !lists_word(list@, e);
        assert(a =~= b);
        assert(names == missing_words(byte_names(required@), list@));
    }
    let mut out: Vec<u8> = copy_bytes(list);
    let mut i: usize = 0;
    assert(names.subrange(0, 0) =~= Seq::empty());
    while i < extras.len()
        invariant
            i <= extras.len(),
            names == byte_names(extras@),
            out@ == extended_list(list@, names.subrange(0, i as int)),
        decreases extras.len() - i,
    {
        proof {
            assert(names.subrange(0, i + 1).drop_last() =~= names.subrange(0, i as int));
            assert(names.subrange(0, i + 1).last() == extras@[i as int]@);
        }
        if out.len() != 0 {
            out.push(SPACE);
        }
        append_bytes(&mut out, extras[i].as_slice());
        i += 1;
    }
    assert(names.subrange(0, names.len() as int) =~= names);
    out
}

/// What is left to do for an application that asks for an extension list.
#[derive(Debug)]
pub enum ExtensionStep {
    /// Ask the runtime for its list, with room for `capacity` bytes.
    Ask { capacity: u32 },
    /// Answer the application. `count` and `written` go to its memory where they are there.
    Done { result: XrErr, count: Option<u32>, written: Option<Vec<u8>> },
}

/// An application's request for a list of extensions: how many bytes it has room for, whether it
/// gave any memory at all, and the names that the layer requires.
#[derive(Debug)]
pub struct ExtensionQuery {
    pub cap: u32,
    pub buffer_is_null: bool,
    pub required: Vec<Vec<u8>>,
}

/// The length that an application is told: that of the list, and the zero byte behind it.
pub open spec fn counted(offered: Seq<u8>) -> nat {
    offered.len() + 1
}

/// What is written for an application that has room for `cap` bytes: the list and a zero byte, if
/// there is room for both.
pub open spec fn written_for(cap: u32, offered: Seq<u8>) -> Option<Seq<u8>> {
    if offered.len() < cap {
        Some(offered.push(0))
    } else {
        None
    }
}

impl ExtensionQuery {
    pub fn for_instance(cap: u32, buffer_is_null: bool) -> (r: ExtensionQuery)
        ensures
            r.cap == cap,
            r.buffer_is_null == buffer_is_null,
            byte_names(r.required@) == required_instance_names(),
    {
        ExtensionQuery { cap, buffer_is_null, required: required_vk_instance_extensions() }
    }

    pub fn for_device(cap: u32, buffer_is_null: bool) -> (r: ExtensionQuery)
        ensures
            r.cap == cap,
            r.buffer_is_null == buffer_is_null,
            byte_names(r.required@) == required_device_names(),
    {
        ExtensionQuery { cap, buffer_is_null, required: required_vk_device_extensions() }
    }

    /// The runtime's list is not asked for if the instance is unknown, if it was created without
    /// the Vulkan extension, or if the application announces room but gives no memory.
    pub fn start(
        &self,
        found: &Result<WithHook, RegisterationError>,
        has_vulkan_enable: bool,
    ) -> (r: ExtensionStep)
        ensures
            r == (if found is Err {
                ExtensionStep::Done {
                    result: XrErr::new(ERROR_HANDLE_INVALID),
                    count: None,
                    written: None,
                }
            } else if !has_vulkan_enable || (self.cap != 0 && self.buffer_is_null) {
                ExtensionStep::Done {
                    result: XrErr::new(ERROR_VALIDATION_FAILURE),
                    count: None,
                    written: None,
                }
            } else {
                ExtensionStep::Ask { capacity: 0 }
            }),
    {
        if found.is_err() {
            ExtensionStep::Done {
                result: XrErr::new(ERROR_HANDLE_INVALID),
                count: None,
                written: None,
            }
        } else if !has_vulkan_enable || (self.cap != 0 && self.buffer_is_null) {
            ExtensionStep::Done {
                result: XrErr::new(ERROR_VALIDATION_FAILURE),
                count: None,
                written: None,
            }
        } else {
            ExtensionStep::Ask { capacity: 0 }
        }
    }

    /// The runtime has said how long its list is.
    pub fn sized(&self, ret: XrErr, len: u32) -> (r: ExtensionStep)
        ensures
            r == (if ret.code != SUCCESS {
                ExtensionStep::Done { result: ret, count: None, written: None }
            } else {
                ExtensionStep::Ask { capacity: len }
            }),
    {
        if !ret.is_success() {
            ExtensionStep::Done { result: ret, count: None, written: None }
        } else {
            ExtensionStep::Ask { capacity: len }
        }
    }

    /// The runtime has given its list: `buf` holds what it wrote, whose first `len` bytes are the
    /// list and the zero byte that ends it. The count tells how long the extended list is, with
    /// its zero byte. It is written out if the application has room for that many bytes.
    pub fn listed(&self, ret: XrErr, len: u32, buf: &[u8]) -> (r: ExtensionStep)
        requires
            ret.code == SUCCESS ==> 1 <= len <= buf@.len() && offered_list(
                buf@.subrange(0, len - 1),
                byte_names(self.required@),
            ).len() < u32::MAX,
        ensures
            r matches ExtensionStep::Done { result, count, written } && {
                let offered = offered_list(buf@.subrange(0, len - 1), byte_names(self.required@));
                &&& result == ret
                &&& ret.code != SUCCESS ==> count is None && written is None
                &&& ret.code == SUCCESS ==> count == Some(counted(offered) as u32)
                &&& ret.code == SUCCESS ==> opt_bytes(written) == written_for(self.cap, offered)
            },
    {
        if !ret.is_success() {
            return ExtensionStep::Done { result: ret, count: None, written: None };
        }
        let mut list: Vec<u8> = Vec::new();
        let mut i: usize = 0;
        let n: usize = (len - 1) as usize;
        while i < n
            invariant
                i <= n,
                n <= buf@.len(),
                list@ == buf@.subrange(0, i as int),
            decreases n - i,
        {
            list.push(buf[i]);
            i += 1;
            assert(list@ =~= buf@.subrange(0, i as int));
        }
        let mut offered = offer_extensions(list.as_slice(), self.required.as_slice());
        let total: u32 = offered.len() as u32;
        let result = XrErr::new(SUCCESS);
        if total >= self.cap {
            return ExtensionStep::Done { result, count: Some(total + 1), written: None };
        }
        offered.push(0);
        ExtensionStep::Done { result, count: Some(total + 1), written: Some(offered) }
    }
}

/// No space and not empty: what a name in a list looks like.
pub open spec fn is_name(word: Seq<u8>) -> bool {
    word.len() > 0 && forall|i: int| 0 <= i < word.len() ==> word[i] != SPACE
}

/// A list keeps its words when a name is put behind it, and then holds that name too.
proof fn lemma_append_name(list: Seq<u8>, name: Seq<u8>, word: Seq<u8>)
    requires
        is_name(name),
        is_name(word),
        lists_word(list, word) || word == name,
    ensures
        lists_word(
            (if list.len() == 0 {
                list
            } else {
                list.push(SPACE)
            }) + name,
            word,
        ),
{
    let before = if list.len() == 0 {
        list
    } else {
        list.push(SPACE)
    };
    let out = before + name;
    if lists_word(list, word) {
        let (from, to) = choose|from: int, to: int| #[trigger]
            word_at(list, from, to) && list.subrange(from, to) == word;
        assert(list.len() > 0);
        assert(forall|i: int| 0 <= i < list.len() ==> out[i] == list[i]);
        assert(out[list.len() as int] == SPACE);
        assert(word_at(out, from, to));
        assert(out.subrange(from, to) =~= word);
    } else {
        let from = before.len() as int;
        let to = out.len() as int;
        assert forall|i: int| from <= i < to implies out[i] != SPACE by {
            assert(out[i] == name[i - from]);
        }
        assert(word_at(out, from, to));
        assert(out.subrange(from, to) =~= name);
    }
}

proof fn lemma_extended_holds(list: Seq<u8>, extras: Seq<Seq<u8>>, word: Seq<u8>)
    requires
        forall|i: int| 0 <= i < extras.len() ==> is_name(#[trigger] extras[i]),
        is_name(word),
        lists_word(list, word) || extras.contains(word),
    ensures
        lists_word(extended_list(list, extras), word),
    decreases extras.len(),
{
    if extras.len() > 0 {
        let before = extended_list(list, extras.drop_last());
        assert forall|i: int| 0 <= i < extras.drop_last().len() implies is_name(
            #[trigger] extras.drop_last()[i],
        ) by {
            assert(extras.drop_last()[i] == extras[i]);
        }
        if word != extras.last() {
            if extras.contains(word) {
                let k = choose|k: int| 0 <= k < extras.len() && extras[k] == word;
                assert(extras.drop_last()[k] == word);
            }
            lemma_extended_holds(list, extras.drop_last(), word);
        }
        assert(extras[extras.len() - 1] == extras.last());
        lemma_append_name(before, extras.last(), word);
    }
}

/// What the application is offered holds every name that the runtime listed and every name that
/// the layer requires.
pub proof fn law_offer_is_complete(list: Seq<u8>, required: Seq<Seq<u8>>, word: Seq<u8>)
    requires
        forall|i: int| 0 <= i < required.len() ==> is_name(#[trigger] required[i]),
        is_name(word),
        lists_word(list, word) || required.contains(word),
    ensures
        lists_word(offered_list(list, required), word),
{
    let missing = |e: Seq<u8>| !lists_word(list, e);
    let extras = missing_words(required, list);
    assert forall|i: int| 0 <= i < extras.len() implies is_name(#[trigger] extras[i]) by {
        lemma_filtered_from(required, missing, i);
    }
    if !lists_word(list, word) {
        let k = choose|k: int| 0 <= k < required.len() && required[k] == word;
        required.lemma_filter_contains(missing, k);
    }
    lemma_extended_holds(list, extras, word);
}

/// What is kept of a sequence comes from it.
proof fn lemma_filtered_from(s: Seq<Seq<u8>>, keep: spec_fn(Seq<u8>) -> bool, i: int)
    requires
        0 <= i < s.filter(keep).len(),
    ensures
        s.contains(s.filter(keep)[i]),
    decreases s.len(),
{
    reveal(Seq::filter);
    let short = s.drop_last();
    if i < short.filter(keep).len() {
        lemma_filtered_from(short, keep, i);
        let k = choose|k: int| 0 <= k < short.len() && short[k] == short.filter(keep)[i];
        assert(s[k] == s.filter(keep)[i]);
    } else {
        assert(s[s.len() - 1] == s.filter(keep)[i]);
    }
}

/// Nothing is kept of a sequence if nothing in it is to be kept.
proof fn lemma_filter_nothing(s: Seq<Seq<u8>>, keep: spec_fn(Seq<u8>) -> bool)
    requires
        forall|i: int| 0 <= i < s.len() ==> !keep(#[trigger] s[i]),
    ensures
        s.filter(keep) == Seq::<Seq<u8>>::empty(),
{
    if s.filter(keep).len() > 0 {
        lemma_filtered_from(s, keep, 0);
        s.lemma_filter_pred(keep, 0);
        let k = choose|k: int| 0 <= k < s.len() && s[k] == s.filter(keep)[0];
        assert(!keep(s[k]));
    }
    assert(s.filter(keep) =~= Seq::<Seq<u8>>::empty());
}

/// Extending a list that was extended before adds nothing.
pub proof fn law_offer_is_idempotent(list: Seq<u8>, required: Seq<Seq<u8>>)
    requires
        forall|i: int| 0 <= i < required.len() ==> is_name(#[trigger] required[i]),
    ensures
        offered_list(offered_list(list, required), required) == offered_list(list, required),
{
    let offered = offered_list(list, required);
    let missing = |e: Seq<u8>| !lists_word(offered, e);
    assert forall|i: int| 0 <= i < required.len() implies !missing(#[trigger] required[i]) by {
        law_offer_is_complete(list, required, required[i]);
    }
    lemma_filter_nothing(required, missing);
}

/// An application that has as much room as it was told gets the whole list, which ends with a
/// zero byte and fits; one that has less gets nothing.
pub proof fn law_told_length_is_enough(cap: u32, list: Seq<u8>, required: Seq<Seq<u8>>)
    ensures
        ({
            let offered = offered_list(list, required);
            match written_for(cap, offered) {
                Some(w) => counted(offered) <= cap && w.len() == counted(offered) && w.last() == 0
                    && w.drop_last() == offered,
                None => cap < counted(offered),
            }
        }),
{
    let offered = offered_list(list, required);
    assert(offered.push(0).drop_last() =~= offered);
}

/// The room that `extras` take, each with one byte to set it off.
pub open spec fn spaced_len(extras: Seq<Seq<u8>>) -> int
    decreases extras.len(),
{
    if extras.len() == 0 {
        0
    } else {
        spaced_len(extras.drop_last()) + extras.last().len() + 1
    }
}

/// Each name that is added takes its length and one byte for the space before it, except that no
/// space stands at the start of the list.
pub proof fn law_extended_length(list: Seq<u8>, extras: Seq<Seq<u8>>)
    requires
        list.len() == 0 ==> forall|i: int|
            0 <= i < extras.len() ==> (#[trigger] extras[i]).len() > 0,
    ensures
        extended_list(list, extras).len() == list.len() + spaced_len(extras) - (if list.len() == 0
            && extras.len() > 0 {
            1int
        } else {
            0int
        }),
    decreases extras.len(),
{
    if extras.len() > 0 {
        assert forall|i: int|
            list.len() == 0 && 0 <= i < extras.drop_last().len() implies (
        #[trigger] extras.drop_last()[i]).len() > 0 by {
            assert(extras.drop_last()[i] == extras[i]);
        }
        law_extended_length(list, extras.drop_last());
        reveal_with_fuel(spaced_len, 2);
        lemma_spaced_len_positive(extras.drop_last());
        if list.len() == 0 && extras.len() > 1 {
            assert(extras.drop_last()[0].len() > 0);
        }
    }
}

proof fn lemma_spaced_len_positive(extras: Seq<Seq<u8>>)
    ensures
        spaced_len(extras) >= 0,
        extras.len() > 0 ==> spaced_len(extras) >= extras[0].len() + 1,
    decreases extras.len(),
{
    reveal_with_fuel(spaced_len, 2);
    if extras.len() > 1 {
        assert(extras.drop_last()[0] == extras[0]);
        lemma_spaced_len_positive(extras.drop_last());
    }
}

/// The sequence without its repetitions: of equal members the first stays.
pub open spec fn distinct(names: Seq<Seq<u8>>) -> Seq<Seq<u8>>
    decreases names.len(),
{
    if names.len() == 0 {
        Seq::empty()
    } else {
        let before = distinct(names.drop_last());
        if before.contains(names.last()) {
            before
        } else {
            before.push(names.last())
        }
    }
}

/// The extensions to enable for an application that asked for `requested`: `None` if they hold
/// all that is required; else what is missing, and then what was asked for, without repetitions.
pub open spec fn merged_names(requested: Seq<Seq<u8>>, required: Seq<Seq<u8>>) -> Option<
    Seq<Seq<u8>>,
> {
    let extras = required.filter(|e: Seq<u8>| !requested.contains(e));
    if extras.len() == 0 {
        None
    } else {
        Some(extras + distinct(requested))
    }
}

/// The contents of an optional list of byte strings.
pub open spec fn opt_names(list: Option<Vec<Vec<u8>>>) -> Option<Seq<Seq<u8>>> {
    match list {
        Some(list) => Some(byte_names(list@)),
        None => None,
    }
}

/// Puts the required extensions that an application did not ask for before those that it did.
pub fn merge_extensions(requested: &[Vec<u8>], required: &[Vec<u8>]) -> (r: Option<Vec<Vec<u8>>>)
    ensures
        opt_names(r) == merged_names(byte_names(requested@), byte_names(required@)),
{
    let mut out = names_not_in(required, requested);
    if out.len() == 0 {
        return None;
    }
    let ghost extras = byte_names(out@);
    let ghost names = byte_names(requested@);
    let mut kept: Vec<Vec<u8>> = Vec::new();
    let mut i: usize = 0;
    proof {
        assert(names.subrange(0, 0) =~= Seq::empty());
        assert(byte_names(kept@) =~= Seq::empty());
        assert(extras + byte_names(kept@) =~= extras);
    }
    while i < requested.len()
        invariant
            i <= requested.len(),
            names == byte_names(requested@),
            byte_names(kept@) == distinct(names.subrange(0, i as int)),
            byte_names(out@) == extras + byte_names(kept@),
        decreases requested.len() - i,
    {
        proof {
            assert(names.subrange(0, i + 1).drop_last() =~= names.subrange(0, i as int));
            assert(names.subrange(0, i + 1).last() == requested@[i as int]@);
        }
        if !has_name(kept.as_slice(), requested[i].as_slice()) {
            let ghost kept_before = kept@;
            let ghost out_before = out@;
            kept.push(copy_bytes(requested[i].as_slice()));
            out.push(copy_bytes(requested[i].as_slice()));
            assert(byte_names(kept@) =~= byte_names(kept_before).push(names[i as int]));
            assert(byte_names(out@) =~= byte_names(out_before).push(names[i as int]));
        }
        i += 1;
    }
    assert(names.subrange(0, names.len() as int) =~= names);
    Some(out)
}

proof fn lemma_distinct(names: Seq<Seq<u8>>)
    ensures
        distinct(names).no_duplicates(),
        forall|n: Seq<u8>| #[trigger] distinct(names).contains(n) <==> names.contains(n),
    decreases names.len(),
{
    if names.len() > 0 {
        let short = names.drop_last();
        let before = distinct(short);
        lemma_distinct(short);
        assert forall|n: Seq<u8>| #[trigger] distinct(names).contains(n) <==> names.contains(
            n,
        ) by {
            if names.contains(n) {
                let k = choose|k: int| 0 <= k < names.len() && names[k] == n;
                if k < short.len() {
                    assert(short[k] == n);
                    assert(before.contains(n));
                    let j = choose|j: int| 0 <= j < before.len() && before[j] == n;
                    assert(distinct(names)[j] == n);
                } else {
                    assert(n == names.last());
                    if !before.contains(n) {
                        assert(distinct(names)[before.len() as int] == n);
                    }
                }
            }
            if distinct(names).contains(n) {
                let j = choose|j: int| 0 <= j < distinct(names).len() && distinct(names)[j] == n;
                if j < before.len() {
                    assert(before[j] == n);
                    assert(before.contains(n));
                    let k = choose|k: int| 0 <= k < short.len() && short[k] == n;
                    assert(names[k] == n);
                } else {
                    assert(names[names.len() - 1] == n);
                }
            }
        }
        assert(before.no_duplicates());
        if !before.contains(names.last()) {
            assert(distinct(names) == before.push(names.last()));
        }
    }
}

/// What is enabled in place of what was asked for holds exactly the names that were asked for or
/// are required.
pub proof fn law_merge_is_union(
    requested: Seq<Seq<u8>>,
    required: Seq<Seq<u8>>,
    name: Seq<u8>,
)
    ensures
        (match merged_names(requested, required) {
            Some(names) => names.contains(name),
            None => requested.contains(name),
        }) <==> requested.contains(name) || required.contains(name),
{
    let missing = |e: Seq<u8>| !requested.contains(e);
    let extras = required.filter(missing);
    lemma_distinct(requested);
    if required.contains(name) && !requested.contains(name) {
        let k = choose|k: int| 0 <= k < required.len() && required[k] == name;
        required.lemma_filter_contains(missing, k);
        let j = choose|j: int| 0 <= j < extras.len() && extras[j] == name;
        assert((extras + distinct(requested))[j] == name);
    }
    if distinct(requested).contains(name) {
        let j = choose|j: int| 0 <= j < distinct(requested).len() && distinct(requested)[j] == name;
        assert((extras + distinct(requested))[extras.len() + j] == name);
    }
    if (extras + distinct(requested)).contains(name) {
        let j = choose|j: int|
            0 <= j < (extras + distinct(requested)).len() && (extras + distinct(requested))[j]
                == name;
        if j < extras.len() {
            lemma_filtered_from(required, missing, j);
        } else {
            assert(distinct(requested)[j - extras.len()] == name);
        }
    }
}

/// No extension is enabled twice, if none is required twice.
pub proof fn law_merge_has_no_repetition(requested: Seq<Seq<u8>>, required: Seq<Seq<u8>>)
    requires
        required.no_duplicates(),
    ensures
        merged_names(requested, required) matches Some(names) ==> names.no_duplicates(),
{
    let missing = |e: Seq<u8>| !requested.contains(e);
    let extras = required.filter(missing);
    lemma_distinct(requested);
    lemma_filter_no_duplicates(required, missing);
    let all = extras + distinct(requested);
    assert forall|i: int, j: int| 0 <= i < j < all.len() implies all[i] != all[j] by {
        if i < extras.len() && j >= extras.len() {
            required.lemma_filter_pred(missing, i);
            assert(distinct(requested).contains(distinct(requested)[j - extras.len()]));
        }
    }
}

proof fn lemma_filter_no_duplicates(s: Seq<Seq<u8>>, keep: spec_fn(Seq<u8>) -> bool)
    requires
        s.no_duplicates(),
    ensures
        s.filter(keep).no_duplicates(),
    decreases s.len(),
{
    reveal(Seq::filter);
    if s.len() > 0 {
        let short = s.drop_last();
        lemma_filter_no_duplicates(short, keep);
        assert forall|i: int| 0 <= i < short.filter(keep).len() implies short.filter(keep)[i]
            != s.last() by {
            lemma_filtered_from(short, keep, i);
            let k = choose|k: int| 0 <= k < short.len() && short[k] == short.filter(keep)[i];
            assert(s[k] == short[k]);
        }
    }
}

/// A word stands in a list exactly if the list is something, the word, and something else, where
/// the first is nothing or ends with a space, the last is nothing or begins with one, and the
/// word holds none.
pub proof fn law_words_stand_between_spaces(list: Seq<u8>, word: Seq<u8>)
    ensures
        lists_word(list, word) <==> exists|a: Seq<u8>, b: Seq<u8>|
            #![trigger a + word + b]
            list == a + word + b && (a.len() == 0 || a.last() == 32) && (b.len() == 0 || b[0] == 32)
                && !word.contains(32),
{
    if lists_word(list, word) {
        let (from, to) = choose|from: int, to: int| #[trigger]
            word_at(list, from, to) && list.subrange(from, to) == word;
        let a = list.subrange(0, from);
        let b = list.subrange(to, list.len() as int);
        assert(list =~= a + word + b);
        assert forall|i: int| 0 <= i < word.len() implies word[i] != 32 by {
            assert(word[i] == list[from + i]);
        }
    }
    if exists|a: Seq<u8>, b: Seq<u8>|
        #![trigger a + word + b]
        list == a + word + b && (a.len() == 0 || a.last() == 32) && (b.len() == 0 || b[0] == 32)
            && !word.contains(32) {
        let (a, b) = choose|a: Seq<u8>, b: Seq<u8>|
            #![trigger a + word + b]
            list == a + word + b && (a.len() == 0 || a.last() == 32) && (b.len() == 0 || b[0] == 32)
                && !word.contains(32);
        let from = a.len() as int;
        let to = a.len() + word.len() as int;
        assert(list.subrange(from, to) =~= word);
        assert forall|i: int| from <= i < to implies list[i] != SPACE by {
            assert(list[i] == word[i - from]);
            assert(word.contains(word[i - from]));
        }
        if b.len() > 0 {
            assert(list[to] == b[0]);
        }
        if a.len() > 0 {
            assert(list[from - 1] == a.last());
        }
        assert(word_at(list, from, to));
    }
}

/// Names are put behind a list one after the other, each after one space unless nothing stands
/// before it.
pub proof fn law_names_are_put_behind(list: Seq<u8>, a: Seq<Seq<u8>>, b: Seq<Seq<u8>>, name: Seq<u8>)
    ensures
        extended_list(list, Seq::empty()) == list,
        extended_list(list, a + b) == extended_list(extended_list(list, a), b),
        list.len() > 0 ==> extended_list(list, seq![name]) == list + seq![32u8] + name,
        list.len() == 0 ==> extended_list(list, seq![name]) == name,
    decreases b.len(),
{
    let one = seq![name];
    assert(one.drop_last() =~= Seq::<Seq<u8>>::empty());
    assert(one.last() == name);
    assert(extended_list(list, one.drop_last()) == list);
    assert(list.push(32u8) =~= list + seq![32u8]);
    if list.len() == 0 {
        assert(list + name =~= name);
    }
    if b.len() == 0 {
        assert(a + b =~= a);
    } else {
        law_names_are_put_behind(list, a, b.drop_last(), name);
        assert((a + b).drop_last() =~= a + b.drop_last());
        assert((a + b).last() == b.last());
    }
}

/// What is added to a list is what is required and does not stand in it, in the order in which it
/// is required; the list itself stays as it is.
pub proof fn law_only_missing_names_are_added(list: Seq<u8>, a: Seq<Seq<u8>>, b: Seq<Seq<u8>>, name: Seq<u8>)
    ensures
        missing_words(a + b, list) == missing_words(a, list) + missing_words(b, list),
        lists_word(list, name) ==> missing_words(seq![name], list) == Seq::<Seq<u8>>::empty(),
        !lists_word(list, name) ==> missing_words(seq![name], list) == seq![name],
        offered_list(list, a) == extended_list(list, missing_words(a, list)),
    decreases b.len(),
{
    reveal(Seq::filter);
    let one = seq![name];
    assert(one.drop_last() =~= Seq::<Seq<u8>>::empty());
    assert(one.last() == name);
    assert(missing_words(Seq::empty(), list) =~= Seq::<Seq<u8>>::empty());
    if lists_word(list, name) {
        assert(missing_words(one, list) =~= Seq::<Seq<u8>>::empty());
    } else {
        assert(missing_words(one, list) =~= one);
    }
    if b.len() == 0 {
        assert(a + b =~= a);
        assert(missing_words(a, list) + missing_words(b, list) =~= missing_words(a, list));
    } else {
        law_only_missing_names_are_added(list, a, b.drop_last(), name);
        assert((a + b).drop_last() =~= a + b.drop_last());
        assert((a + b).last() == b.last());
        assert(missing_words(a + b, list) =~= missing_words(a, list) + missing_words(b, list));
    }
}

/// A list starts as it was before anything was added to it.
pub proof fn law_list_stays_in_front(list: Seq<u8>, extras: Seq<Seq<u8>>)
    ensures
        list.is_prefix_of(extended_list(list, extras)),
    decreases extras.len(),
{
    if extras.len() > 0 {
        law_list_stays_in_front(list, extras.drop_last());
        let before = extended_list(list, extras.drop_last());
        let after = extended_list(list, extras);
        assert(after.subrange(0, before.len() as int) =~= before);
        assert(after.subrange(0, list.len() as int) =~= before.subrange(0, list.len() as int));
    } else {
        assert(list.subrange(0, list.len() as int) =~= list);
    }
}

/// The layer requires three extensions of an instance and one of a device, which are these.
pub proof fn law_required_extensions(i: Vec<Vec<u8>>, d: Vec<Vec<u8>>)
    requires
        call_ensures(required_vk_instance_extensions, (), i),
        call_ensures(required_vk_device_extensions, (), d),
    ensures
        i@.len() == 3,
        i@[0]@ == encode_utf8("VK_KHR_external_memory_capabilities"@),
        i@[1]@ == encode_utf8("VK_KHR_get_physical_device_properties2"@),
        i@[2]@ == encode_utf8("VK_KHR_xcb_surface"@),
        d@.len() == 1,
        d@[0]@ == encode_utf8("VK_KHR_copy_commands2"@),
        required_instance_names() == byte_names(i@),
        required_device_names() == byte_names(d@),
{
    assert(byte_names(i@).len() == i@.len() && byte_names(d@).len() == d@.len());
    assert(byte_names(i@)[0] == i@[0]@);
    assert(byte_names(i@)[1] == i@[1]@);
    assert(byte_names(i@)[2] == i@[2]@);
    assert(byte_names(d@)[0] == d@[0]@);
}

/// A query is for what the layer requires, with the room that the application has.
pub proof fn law_queries(cap: u32, null: bool, i: ExtensionQuery, d: ExtensionQuery)
    requires
        call_ensures(ExtensionQuery::for_instance, (cap, null), i),
        call_ensures(ExtensionQuery::for_device, (cap, null), d),
    ensures
        i.cap == cap && d.cap == cap,
        i.buffer_is_null == null && d.buffer_is_null == null,
        byte_names(i.required@) == required_instance_names(),
        byte_names(d.required@) == required_device_names(),
{
}

/// The runtime is asked exactly if the instance is known, has the Vulkan extension, and the
/// application gives memory wherever it announces room: first for the length, and then, if that
/// worked, for a list of that length.
pub proof fn law_runtime_is_asked(
    q: &ExtensionQuery,
    found: &Result<WithHook, RegisterationError>,
    enabled: bool,
    first: ExtensionStep,
    ret: XrErr,
    len: u32,
    second: ExtensionStep,
)
    requires
        call_ensures(ExtensionQuery::start, (q, found, enabled), first),
        call_ensures(ExtensionQuery::sized, (q, ret, len), second),
    ensures
        first is Ask <==> *found is Ok && enabled && (q.cap == 0 || !q.buffer_is_null),
        first is Ask ==> first->capacity == 0,
        first is Done ==> first->count is None && first->written is None && first->result.code == (
        if *found is Err {
            -12int
        } else {
            -1
        }),
        second is Ask <==> ret.code == 0,
        second is Ask ==> second->capacity == len,
        second is Done ==> second->result == ret && second->count is None && second->written
            is None,
{
}

/// An application is told the length of the extended list with its zero byte, and gets the list
/// with the zero byte exactly if it has room for that many bytes. An error of the runtime is
/// passed on.
pub proof fn law_list_is_answered(q: &ExtensionQuery, ret: XrErr, len: u32, buf: &[u8], r: ExtensionStep)
    requires
        ret.code == 0 ==> 1 <= len <= buf@.len() && offered_list(
            buf@.subrange(0, len - 1),
            byte_names(q.required@),
        ).len() < u32::MAX,
        call_ensures(ExtensionQuery::listed, (q, ret, len, buf), r),
    ensures
        r is Done,
        r->result == ret,
        ret.code != 0 ==> r->count is None && r->written is None,
        ret.code == 0 ==> ({
            let offered = offered_list(buf@.subrange(0, len - 1), byte_names(q.required@));
            &&& r->count matches Some(n) && n == offered.len() + 1
            &&& r->written is Some <==> q.cap > offered.len()
            &&& r->written matches Some(w) ==> w@ == offered + seq![0u8]
        }),
{
    if ret.code == 0 {
        let offered = offered_list(buf@.subrange(0, len - 1), byte_names(q.required@));
        assert(offered.push(0) =~= offered + seq![0u8]);
    }
}

/// The first `n` names, of which there is at least one, are required and were not asked for; the
/// others are what was asked for.
pub open spec fn missing_before(
    requested: Seq<Seq<u8>>,
    required: Seq<Seq<u8>>,
    names: Seq<Seq<u8>>,
    n: int,
) -> bool {
    &&& 0 < n <= names.len()
    &&& forall|k: int|
        0 <= k < n ==> !requested.contains(#[trigger] names[k]) && required.contains(names[k])
    &&& names.subrange(n, names.len() as int) == distinct(requested)
}

/// What is missing comes first, and then what was asked for.
pub open spec fn missing_first(
    requested: Seq<Seq<u8>>,
    required: Seq<Seq<u8>>,
    names: Seq<Seq<u8>>,
) -> bool {
    exists|n: int| #[trigger] missing_before(requested, required, names, n)
}

/// Nothing is enabled beyond what was asked for exactly if all that is required was asked for.
/// Else what is missing comes first, and then what was asked for.
pub proof fn law_missing_extensions_come_first(requested: Seq<Seq<u8>>, required: Seq<Seq<u8>>)
    ensures
        merged_names(requested, required) is None <==> forall|i: int|
            0 <= i < required.len() ==> requested.contains(#[trigger] required[i]),
        merged_names(requested, required) matches Some(names) ==> missing_first(
            requested,
            required,
            names,
        ),
{
    let missing = |e: Seq<u8>| !requested.contains(e);
    let extras = required.filter(missing);
    if extras.len() == 0 {
        assert forall|i: int| 0 <= i < required.len() implies requested.contains(
            #[trigger] required[i],
        ) by {
            if missing(required[i]) {
                required.lemma_filter_contains(missing, i);
            }
        }
    } else {
        let names = extras + distinct(requested);
        let n = extras.len() as int;
        assert(names.subrange(n, names.len() as int) =~= distinct(requested));
        assert forall|k: int| 0 <= k < n implies !requested.contains(#[trigger] names[k])
            && required.contains(names[k]) by {
            required.lemma_filter_pred(missing, k);
            lemma_filtered_from(required, missing, k);
            assert(names[k] == extras[k]);
        }
        assert(missing_before(requested, required, names, n));
        assert(merged_names(requested, required) == Some(names));
        lemma_filtered_from(required, missing, 0);
        required.lemma_filter_pred(missing, 0);
        let j = choose|j: int| 0 <= j < required.len() && required[j] == extras[0];
        assert(!requested.contains(required[j]));
    }
}

/// Of equal names the first is kept, so names keep the order in which they come first.
pub proof fn law_first_of_equal_names_is_kept(a: Seq<Seq<u8>>, name: Seq<u8>)
    ensures
        distinct(Seq::<Seq<u8>>::empty()) == Seq::<Seq<u8>>::empty(),
        a.contains(name) ==> distinct(a.push(name)) == distinct(a),
        !a.contains(name) ==> distinct(a.push(name)) == distinct(a).push(name),
{
    assert(a.push(name).drop_last() =~= a);
    lemma_distinct(a);
    assert(distinct(a).contains(name) <==> a.contains(name));
}

/// The calls give what the laws on lists speak of.
pub proof fn law_lists_are_extended(
    list: &[u8],
    words: Vec<Vec<u8>>,
    required: &[Vec<u8>],
    offered: Vec<u8>,
    requested: &[Vec<u8>],
    merged: Option<Vec<Vec<u8>>>,
    missing: Vec<Vec<u8>>,
)
    requires
        call_ensures(split_words, (list,), words),
        call_ensures(offer_extensions, (list, required), offered),
        call_ensures(merge_extensions, (requested, required), merged),
        call_ensures(names_not_in, (required, requested), missing),
    ensures
        forall|w: Seq<u8>| #[trigger] byte_names(words@).contains(w) <==> lists_word(list@, w),
        offered@ == offered_list(list@, byte_names(required@)),
        merged is Some <==> merged_names(byte_names(requested@), byte_names(required@)) is Some,
        merged matches Some(m) ==> merged_names(byte_names(requested@), byte_names(required@))
            == Some(byte_names(m@)),
        forall|w: Seq<u8>| #[trigger] byte_names(missing@).contains(w) <==> byte_names(
            required@,
        ).contains(w) && !byte_names(requested@).contains(w),
{
}

} // verus!
