//! Which handles have to be hooked along with those that the user hooks.

use crate::codegen::parsed::Names;
use crate::text::{has_prefix, has_text, join, str_eq, strip_prefix, texts};
use crate::textmap::TextMap;
use vstd::prelude::*;
use vstd::string::*;

verus! {

/// The type of the handle that is hooked under the name `handle`.
pub open spec fn full_name(handle: Seq<char>) -> Seq<char> {
    "Xr"@ + handle
}

/// The hook of a handle that the user did not hook.
pub open spec fn default_hook(handle: Seq<char>) -> Seq<char> {
    "Default"@ + handle + "Hook"@
}

/// The parent type of a handle type, without its prefix.
pub open spec fn short_parent(parent_of: Names, handle: Seq<char>) -> Seq<char> {
    let parent = parent_of[full_name(handle)];
    parent.subrange(2, parent.len() as int)
}

/// The handle has a parent type, which has the prefix of all types.
pub open spec fn has_parent(parent_of: Names, handle: Seq<char>) -> bool {
    parent_of.contains_key(full_name(handle)) && has_prefix(
        parent_of[full_name(handle)],
        "Xr"@,
    )
}

/// The instance needs no parent; every other handle has one.
pub open spec fn placed(parent_of: Names, handle: Seq<char>) -> bool {
    handle == "Instance"@ || has_parent(parent_of, handle)
}

pub open spec fn all_placed(parent_of: Names, handles: Seq<Seq<char>>) -> bool {
    forall|i: int| 0 <= i < handles.len() ==> placed(parent_of, #[trigger] handles[i])
}

/// Where `n` steps from handle to parent lead, if they do not end at the instance before.
pub open spec fn ancestor(parent_of: Names, handle: Seq<char>, n: nat) -> Seq<char>
    decreases n,
{
    if n == 0 || handle == "Instance"@ {
        handle
    } else {
        ancestor(parent_of, short_parent(parent_of, handle), (n - 1) as nat)
    }
}

/// No way up from one of `handles` comes to a handle that lacks a parent.
pub open spec fn ways_known(parent_of: Names, handles: Seq<Seq<char>>) -> bool {
    forall|i: int, n: nat|
        0 <= i < handles.len() ==> placed(
            parent_of,
            #[trigger] ancestor(parent_of, handles[i], n),
        )
}

/// The parents of the handles in `keys` that are not hooked, each once, in the order of `keys`.
pub open spec fn unhooked_parents(
    parent_of: Names,
    hooks: Names,
    keys: Seq<Seq<char>>,
) -> Seq<Seq<char>>
    decreases keys.len(),
{
    if keys.len() == 0 {
        Seq::empty()
    } else {
        let before = unhooked_parents(parent_of, hooks, keys.drop_last());
        let k = keys.last();
        let up = short_parent(parent_of, k);
        if k == "Instance"@ || hooks.contains_key(up) || before.contains(up) {
            before
        } else {
            before.push(up)
        }
    }
}

/// The hooks after `added` got their default hooks one by one.
pub open spec fn hooks_after(hooks: Names, added: Seq<Seq<char>>) -> Names
    decreases added.len(),
{
    if added.len() == 0 {
        hooks
    } else {
        hooks_after(hooks, added.drop_last()).insert(added.last(), default_hook(added.last()))
    }
}

/// The handles that may yet be hooked: the instance and all that have a parent type.
pub open spec fn open_handles(parent_of: Names, hooks: Names) -> Set<Seq<char>> {
    parent_of.dom().map(|t: Seq<char>| t.subrange(2, t.len() as int)).insert(
        "Instance"@,
    ).difference(hooks.dom())
}

pub open spec fn none_hooked(hooks: Names, handles: Seq<Seq<char>>) -> bool {
    forall|i: int| 0 <= i < handles.len() ==> !hooks.contains_key(#[trigger] handles[i])
}

/// The hooks at the end, and all that was added, when `added` are to get their default hooks and
/// so do their parents, round by round; `None` if one of them lacks a parent.
pub open spec fn closed_under_parents(
    parent_of: Names,
    hooks: Names,
    added: Seq<Seq<char>>,
) -> Option<(Names, Seq<Seq<char>>)>
    decreases open_handles(parent_of, hooks).len(),
    when parent_of.dom().finite() && none_hooked(hooks, added)
{
    proof {
        lemma_round(parent_of, hooks, added);
    }
    if !all_placed(parent_of, added) {
        None
    } else if added.len() == 0 {
        Some((hooks, Seq::empty()))
    } else {
        let now = hooks_after(hooks, added);
        match closed_under_parents(parent_of, now, unhooked_parents(parent_of, now, added)) {
            Some((end, more)) => Some((end, added + more)),
            None => None,
        }
    }
}

/// The hooks with all parents among them, and what was added, for hooks whose handles are listed
/// by `keys`; `None` if a handle lacks a parent.
pub open spec fn closure_of(parent_of: Names, hooks: Names, keys: Seq<Seq<char>>) -> Option<
    (Names, Seq<Seq<char>>),
> {
    if all_placed(parent_of, keys) {
        closed_under_parents(parent_of, hooks, unhooked_parents(parent_of, hooks, keys))
    } else {
        None
    }
}

/// `up` is the parent of one of `keys`.
pub open spec fn parent_in(parent_of: Names, keys: Seq<Seq<char>>, up: Seq<char>) -> bool {
    exists|i: int|
        0 <= i < keys.len() && #[trigger] keys[i] != "Instance"@ && short_parent(
            parent_of,
            keys[i],
        ) == up
}

proof fn lemma_push_contains(s: Seq<Seq<char>>, x: Seq<char>, k: Seq<char>)
    ensures
        s.push(x).contains(k) <==> s.contains(k) || k == x,
{
    if s.contains(k) {
        let j = choose|j: int| 0 <= j < s.len() && s[j] == k;
        assert(s.push(x)[j] == k);
    }
    if k == x {
        assert(s.push(x)[s.len() as int] == k);
    }
    if s.push(x).contains(k) {
        let j = choose|j: int| 0 <= j < s.push(x).len() && s.push(x)[j] == k;
        if j < s.len() {
            assert(s[j] == k);
        }
    }
}

proof fn lemma_concat_contains(a: Seq<Seq<char>>, b: Seq<Seq<char>>, k: Seq<char>)
    ensures
        (a + b).contains(k) <==> a.contains(k) || b.contains(k),
{
    if a.contains(k) {
        let j = choose|j: int| 0 <= j < a.len() && a[j] == k;
        assert((a + b)[j] == k);
    }
    if b.contains(k) {
        let j = choose|j: int| 0 <= j < b.len() && b[j] == k;
        assert((a + b)[a.len() + j] == k);
    }
    if (a + b).contains(k) {
        let j = choose|j: int| 0 <= j < (a + b).len() && (a + b)[j] == k;
        if j < a.len() {
            assert(a[j] == k);
        } else {
            assert(b[j - a.len()] == k);
        }
    }
}

/// What `unhooked_parents` lists, it lists once.
proof fn lemma_unhooked(parent_of: Names, hooks: Names, keys: Seq<Seq<char>>)
    ensures
        unhooked_parents(parent_of, hooks, keys).no_duplicates(),
        forall|x: Seq<char>| #[trigger]
            unhooked_parents(parent_of, hooks, keys).contains(x) <==> !hooks.contains_key(x)
                && parent_in(parent_of, keys, x),
        none_hooked(hooks, unhooked_parents(parent_of, hooks, keys)),
    decreases keys.len(),
{
    let all = unhooked_parents(parent_of, hooks, keys);
    if keys.len() > 0 {
        let short = keys.drop_last();
        let before = unhooked_parents(parent_of, hooks, short);
        let k = keys.last();
        let up = short_parent(parent_of, k);
        lemma_unhooked(parent_of, hooks, short);
        assert forall|x: Seq<char>| #[trigger] all.contains(x) <==> !hooks.contains_key(x)
            && parent_in(parent_of, keys, x) by {
            lemma_push_contains(before, up, x);
            assert(before.contains(x) <==> !hooks.contains_key(x) && parent_in(
                parent_of,
                short,
                x,
            ));
            assert(parent_in(parent_of, keys, x) <==> parent_in(parent_of, short, x) || (k
                != "Instance"@ && up == x)) by {
                if parent_in(parent_of, short, x) {
                    let i = choose|i: int|
                        0 <= i < short.len() && #[trigger] short[i] != "Instance"@
                            && short_parent(parent_of, short[i]) == x;
                    assert(keys[i] == short[i]);
                }
                if k != "Instance"@ && up == x {
                    assert(keys[keys.len() - 1] == k);
                }
                if parent_in(parent_of, keys, x) {
                    let i = choose|i: int|
                        0 <= i < keys.len() && #[trigger] keys[i] != "Instance"@ && short_parent(
                            parent_of,
                            keys[i],
                        ) == x;
                    if i < short.len() {
                        assert(short[i] == keys[i]);
                    }
                }
            }
        }
        assert forall|a: int, b: int| 0 <= a < b < all.len() implies all[a] != all[b] by {
            if b == before.len() {
                assert(before.contains(before[a]));
            }
        }
    }
    assert forall|i: int| 0 <= i < all.len() implies !hooks.contains_key(#[trigger] all[i]) by {
        assert(all.contains(all[i]));
    }
}

proof fn lemma_hooks_after(hooks: Names, added: Seq<Seq<char>>)
    ensures
        forall|k: Seq<char>| #[trigger]
            hooks_after(hooks, added).contains_key(k) <==> hooks.contains_key(k)
                || added.contains(k),
        forall|k: Seq<char>| #[trigger]
            hooks_after(hooks, added).contains_key(k) ==> hooks_after(hooks, added)[k] == (
            if added.contains(k) {
                default_hook(k)
            } else {
                hooks[k]
            }),
    decreases added.len(),
{
    if added.len() > 0 {
        let short = added.drop_last();
        let before = hooks_after(hooks, short);
        let now = hooks_after(hooks, added);
        lemma_hooks_after(hooks, short);
        assert(added =~= short.push(added.last()));
        assert forall|k: Seq<char>| #[trigger] now.contains_key(k) <==> hooks.contains_key(k)
            || added.contains(k) by {
            lemma_push_contains(short, added.last(), k);
            assert(before.contains_key(k) <==> hooks.contains_key(k) || short.contains(k));
        }
        assert forall|k: Seq<char>| #[trigger] now.contains_key(k) implies now[k] == (
        if added.contains(k) {
            default_hook(k)
        } else {
            hooks[k]
        }) by {
            lemma_push_contains(short, added.last(), k);
            if k != added.last() {
                assert(before.contains_key(k));
            }
        }
    }
}

/// What comes up in a round is not hooked by then, and fewer handles may yet be hooked.
pub proof fn lemma_round(parent_of: Names, hooks: Names, added: Seq<Seq<char>>)
    requires
        parent_of.dom().finite(),
        none_hooked(hooks, added),
    ensures
        ({
            let now = hooks_after(hooks, added);
            &&& none_hooked(now, unhooked_parents(parent_of, now, added))
            &&& all_placed(parent_of, added) && added.len() > 0 ==> open_handles(
                parent_of,
                now,
            ).len() < open_handles(parent_of, hooks).len()
        }),
{
    let now = hooks_after(hooks, added);
    lemma_unhooked(parent_of, now, added);
    lemma_hooks_after(hooks, added);
    if all_placed(parent_of, added) && added.len() > 0 {
        let strip = |t: Seq<char>| t.subrange(2, t.len() as int);
        let k = added[0];
        let all = parent_of.dom().map(strip).insert("Instance"@);
        parent_of.dom().lemma_map_finite(strip);
        let more = open_handles(parent_of, hooks);
        let fewer = open_handles(parent_of, now);
        assert(more =~= all.difference(hooks.dom()));
        assert(fewer =~= all.difference(now.dom()));
        vstd::set_lib::lemma_len_subset(more, all);
        assert(placed(parent_of, added[0]));
        assert(all.contains(k)) by {
            if k != "Instance"@ {
                reveal_strlit("Xr");
                assert(strip(full_name(k)) =~= k);
                assert(parent_of.dom().contains(full_name(k)));
            }
        }
        assert(added.contains(k));
        assert(now.contains_key(k));
        assert forall|x: Seq<char>| #[trigger] fewer.contains(x) implies more.remove(k).contains(
            x,
        ) by {
            assert(!now.contains_key(x));
            assert(!hooks.contains_key(x));
        }
        assert(more.contains(k));
        vstd::set_lib::lemma_len_subset(fewer, more.remove(k));
    }
}

/// The type name of the parent of `handle`.
fn parent_name(parent_of: &TextMap, handle: &str) -> (r: Option<String>)
    requires
        parent_of.wf(),
    ensures
        match r {
            Some(up) => has_parent(parent_of@, handle@) && up@ == short_parent(
                parent_of@,
                handle@,
            ),
            None => !has_parent(parent_of@, handle@),
        },
{
    let name = join("Xr", handle);
    proof {
        reveal_strlit("Xr");
    }
    match parent_of.get(name.as_str()) {
        Some(parent) => strip_prefix(parent.as_str(), "Xr"),
        None => None,
    }
}

/// The parents of `list` that are not hooked; `None` if one of `list` lacks a parent.
fn unhooked(parent_of: &TextMap, hooks: &TextMap, list: &[String]) -> (r: Option<Vec<String>>)
    requires
        parent_of.wf(),
    ensures
        match r {
            Some(up) => all_placed(parent_of@, texts(list@)) && texts(up@) == unhooked_parents(
                parent_of@,
                hooks@,
                texts(list@),
            ),
            None => !all_placed(parent_of@, texts(list@)),
        },
{
    let ghost parents = parent_of@;
    let ghost keys = texts(list@);
    let mut out: Vec<String> = Vec::new();
    let mut i: usize = 0;
    proof {
        assert(keys.subrange(0, 0) =~= Seq::empty());
        assert(texts(out@) =~= Seq::empty());
    }
    while i < list.len()
        invariant
            i <= list.len(),
            parent_of.wf(),
            parents == parent_of@,
            keys == texts(list@),
            forall|j: int| 0 <= j < i ==> placed(parents, #[trigger] keys[j]),
            texts(out@) == unhooked_parents(parents, hooks@, keys.subrange(0, i as int)),
        decreases list.len() - i,
    {
        proof {
            assert(keys.subrange(0, i + 1).drop_last() =~= keys.subrange(0, i as int));
            assert(keys[i as int] == list@[i as int]@);
        }
        if !str_eq(list[i].as_str(), "Instance") {
            match parent_name(parent_of, list[i].as_str()) {
                Some(up) => {
                    if !hooks.contains_key(up.as_str()) && !has_text(out.as_slice(), up.as_str()) {
                        let ghost before = out@;
                        out.push(up);
                        assert(texts(out@) =~= texts(before).push(
                            short_parent(parents, keys[i as int]),
                        ));
                    }
                },
                None => {
                    assert(!placed(parents, keys[i as int]));
                    return None;
                },
            }
        }
        i += 1;
    }
    assert(keys.subrange(0, keys.len() as int) =~= keys);
    Some(out)
}

/// The handles that are hooked.
fn hooked_handles(hooks: &TextMap) -> (r: Vec<String>)
    requires
        hooks.wf(),
    ensures
        texts(r@) == hooks.keys(),
{
    let mut out: Vec<String> = Vec::new();
    let mut i: usize = 0;
    assert(texts(out@) =~= hooks.keys().subrange(0, 0));
    while i < hooks.len()
        invariant
            hooks.wf(),
            i <= hooks.keys().len(),
            texts(out@) == hooks.keys().subrange(0, i as int),
        decreases hooks.keys().len() - i,
    {
        let ghost before = out@;
        let (k, _) = hooks.entry(i);
        out.push(k.clone());
        assert(texts(out@) =~= texts(before).push(hooks.keys()[i as int]));
        i += 1;
        assert(texts(out@) =~= hooks.keys().subrange(0, i as int));
    }
    assert(hooks.keys().subrange(0, i as int) =~= hooks.keys());
    out
}

/// Gives each of `round` its default hook.
fn hook_all(hooks: &mut TextMap, round: &[String])
    requires
        old(hooks).wf(),
    ensures
        final(hooks).wf(),
        final(hooks)@ == hooks_after(old(hooks)@, texts(round@)),
{
    let ghost start = hooks@;
    let ghost added = texts(round@);
    let mut i: usize = 0;
    assert(added.subrange(0, 0) =~= Seq::empty());
    while i < round.len()
        invariant
            i <= round.len(),
            hooks.wf(),
            added == texts(round@),
            hooks@ == hooks_after(start, added.subrange(0, i as int)),
        decreases round.len() - i,
    {
        proof {
            assert(added.subrange(0, i + 1).drop_last() =~= added.subrange(0, i as int));
            assert(added[i as int] == round@[i as int]@);
        }
        let mut value: String = join("Default", round[i].as_str());
        value.append("Hook");
        hooks.insert(round[i].clone(), value);
        i += 1;
    }
    assert(added.subrange(0, added.len() as int) =~= added);
}

/// Hooks the parents of all hooked handles, and their parents in turn. Gives back the handles
/// that were hooked, each once; `None` if a handle lacks a parent.
pub fn close_hooks(hooks: &mut TextMap, parent_of: &TextMap) -> (r: Option<Vec<String>>)
    requires
        old(hooks).wf(),
        parent_of.wf(),
    ensures
        final(hooks).wf(),
        match closure_of(parent_of@, old(hooks)@, old(hooks).keys()) {
            Some((end, added)) => r matches Some(list) && final(hooks)@ == end && texts(list@)
                == added,
            None => r is None,
        },
{
    let ghost parents = parent_of@;
    let ghost goal = closure_of(parents, hooks@, hooks.keys());
    let handles = hooked_handles(hooks);
    let mut ret: Vec<String> = Vec::new();
    let mut round: Vec<String> = match unhooked(parent_of, hooks, handles.as_slice()) {
        Some(round) => round,
        None => return None,
    };
    proof {
        parent_of.lemma_keys();
        lemma_unhooked(parents, hooks@, texts(handles@));
        assert(texts(ret@) =~= Seq::empty());
        match goal {
            Some((_, added)) => assert(texts(ret@) + added =~= added),
            None => {},
        }
    }
    while round.len() > 0
        invariant
            hooks.wf(),
            parent_of.wf(),
            parents == parent_of@,
            parents.dom().finite(),
            none_hooked(hooks@, texts(round@)),
            goal == closure_of(parents, old(hooks)@, old(hooks).keys()),
            goal == (match closed_under_parents(parents, hooks@, texts(round@)) {
                Some((end, more)) => Some((end, texts(ret@) + more)),
                None => None,
            }),
        decreases open_handles(parents, hooks@).len(),
    {
        let ghost before = hooks@;
        let ghost added = texts(round@);
        let ghost done = texts(ret@);
        proof {
            lemma_round(parents, before, added);
            assert(added.len() == round@.len());
        }
        hook_all(hooks, round.as_slice());
        let next = match unhooked(parent_of, hooks, round.as_slice()) {
            Some(next) => next,
            None => return None,
        };
        ret.append(&mut round);
        round = next;
        proof {
            assert(texts(ret@) =~= done + added);
            match closed_under_parents(parents, hooks@, texts(round@)) {
                Some((_, more)) => assert(done + (added + more) =~= (done + added) + more),
                None => {},
            }
        }
    }
    proof {
        assert(texts(round@) =~= Seq::empty());
        assert(texts(ret@) + Seq::<Seq<char>>::empty() =~= texts(ret@));
    }
    Some(ret)
}

/// Hooks the parents of all hooked handles, and their parents in turn, so that the lifetime of
/// every hooked handle is known. A handle that is hooked already keeps its hook. Gives back the
/// handles that were hooked, each once.
pub fn find_closure(hooks: &mut TextMap, parent_of: &TextMap) -> (ret: Vec<String>)
    requires
        old(hooks).wf(),
        parent_of.wf(),
        ways_known(parent_of@, old(hooks).keys()),
    ensures
        final(hooks).wf(),
        closure_of(parent_of@, old(hooks)@, old(hooks).keys()) == Some(
            (final(hooks)@, texts(ret@)),
        ),
        texts(ret@).no_duplicates(),
{
    proof {
        parent_of.lemma_keys();
        hooks.lemma_keys();
        law_closure_exists(parent_of@, hooks@, hooks.keys());
        law_closure_adds_each_once(parent_of@, hooks@, hooks.keys());
    }
    match close_hooks(hooks, parent_of) {
        Some(ret) => ret,
        None => Vec::new(),
    }
}

/// What is known of the hooks at the end and of what was added.
proof fn lemma_closed(parent_of: Names, hooks: Names, added: Seq<Seq<char>>)
    requires
        parent_of.dom().finite(),
        none_hooked(hooks, added),
        added.no_duplicates(),
        closed_under_parents(parent_of, hooks, added) is Some,
    ensures
        ({
            let (end, all) = closed_under_parents(parent_of, hooks, added)->Some_0;
            &&& all.no_duplicates()
            &&& all_placed(parent_of, all)
            &&& forall|k: Seq<char>| #[trigger]
                end.contains_key(k) <==> hooks.contains_key(k) || all.contains(k)
            &&& forall|k: Seq<char>| #[trigger]
                end.contains_key(k) ==> end[k] == (if all.contains(k) {
                    default_hook(k)
                } else {
                    hooks[k]
                })
            &&& forall|k: Seq<char>| #[trigger] all.contains(k) ==> !hooks.contains_key(k)
            &&& forall|k: Seq<char>| #[trigger] added.contains(k) ==> all.contains(k)
            &&& forall|k: Seq<char>| #[trigger]
                all.contains(k) && k != "Instance"@ ==> end.contains_key(
                    short_parent(parent_of, k),
                )
            &&& forall|k: Seq<char>| #[trigger]
                all.contains(k) ==> added.contains(k) || parent_in(parent_of, all, k)
        }),
    decreases open_handles(parent_of, hooks).len(),
{
    lemma_round(parent_of, hooks, added);
    if added.len() > 0 {
        let now = hooks_after(hooks, added);
        let next = unhooked_parents(parent_of, now, added);
        let (end, more) = closed_under_parents(parent_of, now, next)->Some_0;
        let all = added + more;
        lemma_hooks_after(hooks, added);
        lemma_unhooked(parent_of, now, added);
        lemma_closed(parent_of, now, next);
        assert forall|k: Seq<char>| #[trigger] all.contains(k) <==> added.contains(k)
            || more.contains(k) by {
            lemma_concat_contains(added, more, k);
        }
        assert forall|a: int, b: int| 0 <= a < b < all.len() implies all[a] != all[b] by {
            if a < added.len() && b >= added.len() {
                assert(added.contains(all[a]));
                assert(more.contains(more[b - added.len()]));
                assert(now.contains_key(all[a]));
            }
        }
        assert forall|i: int| 0 <= i < all.len() implies placed(parent_of, #[trigger] all[i]) by {
            if i < added.len() {
                assert(all[i] == added[i]);
            } else {
                assert(all[i] == more[i - added.len()]);
            }
        }
        assert forall|k: Seq<char>| #[trigger] end.contains_key(k) <==> hooks.contains_key(k)
            || all.contains(k) by {
            assert(now.contains_key(k) <==> hooks.contains_key(k) || added.contains(k));
        }
        assert forall|k: Seq<char>| #[trigger] end.contains_key(k) implies end[k] == (
        if all.contains(k) {
            default_hook(k)
        } else {
            hooks[k]
        }) by {
            if !more.contains(k) {
                assert(now.contains_key(k));
            }
        }
        assert forall|k: Seq<char>| #[trigger] all.contains(k) implies !hooks.contains_key(k) by {
            if added.contains(k) {
                let j = choose|j: int| 0 <= j < added.len() && added[j] == k;
                assert(!hooks.contains_key(added[j]));
            } else {
                assert(!now.contains_key(k));
            }
        }
        assert forall|k: Seq<char>| #[trigger]
            all.contains(k) && k != "Instance"@ implies end.contains_key(
            short_parent(parent_of, k),
        ) by {
            if added.contains(k) {
                let up = short_parent(parent_of, k);
                let j = choose|j: int| 0 <= j < added.len() && added[j] == k;
                assert(added[j] != "Instance"@);
                assert(parent_in(parent_of, added, up));
                if !now.contains_key(up) {
                    assert(next.contains(up));
                    assert(more.contains(up));
                }
            }
        }
        assert forall|k: Seq<char>| #[trigger] all.contains(k) implies added.contains(k)
            || parent_in(parent_of, all, k) by {
            if !added.contains(k) {
                let from = if next.contains(k) {
                    added
                } else {
                    more
                };
                assert(parent_in(parent_of, from, k));
                let j = choose|j: int|
                    0 <= j < from.len() && #[trigger] from[j] != "Instance"@ && short_parent(
                        parent_of,
                        from[j],
                    ) == k;
                if next.contains(k) {
                    assert(all[j] == from[j]);
                } else {
                    assert(all[added.len() + j] == from[j]);
                }
            }
        }
    }
}

/// The handles that are hooked at the end are those that the user hooked and those that were
/// added. A hook that the user gave stays, and what was added has its default hook.
pub proof fn law_closure_adds_default_hooks(
    parent_of: Names,
    hooks: Names,
    keys: Seq<Seq<char>>,
    k: Seq<char>,
)
    requires
        parent_of.dom().finite(),
        closure_of(parent_of, hooks, keys) is Some,
    ensures
        ({
            let (end, added) = closure_of(parent_of, hooks, keys)->Some_0;
            &&& end.contains_key(k) <==> hooks.contains_key(k) || added.contains(k)
            &&& hooks.contains_key(k) ==> !added.contains(k) && end[k] == hooks[k]
            &&& added.contains(k) ==> end[k] == default_hook(k)
        }),
{
    let first = unhooked_parents(parent_of, hooks, keys);
    lemma_unhooked(parent_of, hooks, keys);
    lemma_closed(parent_of, hooks, first);
    let (end, added) = closure_of(parent_of, hooks, keys)->Some_0;
    assert(end.contains_key(k) <==> hooks.contains_key(k) || added.contains(k));
}

/// No handle is added twice.
pub proof fn law_closure_adds_each_once(parent_of: Names, hooks: Names, keys: Seq<Seq<char>>)
    requires
        parent_of.dom().finite(),
    ensures
        closure_of(parent_of, hooks, keys) matches Some((_, added)) ==> added.no_duplicates(),
{
    if closure_of(parent_of, hooks, keys) is Some {
        lemma_unhooked(parent_of, hooks, keys);
        lemma_closed(parent_of, hooks, unhooked_parents(parent_of, hooks, keys));
    }
}

/// Only parents of hooked handles are added.
pub proof fn law_closure_adds_only_parents(
    parent_of: Names,
    hooks: Names,
    keys: Seq<Seq<char>>,
    k: Seq<char>,
)
    requires
        parent_of.dom().finite(),
        closure_of(parent_of, hooks, keys) matches Some((_, added)) && added.contains(k),
    ensures
        parent_in(parent_of, keys, k) || parent_in(
            parent_of,
            closure_of(parent_of, hooks, keys)->Some_0.1,
            k,
        ),
{
    lemma_unhooked(parent_of, hooks, keys);
    lemma_closed(parent_of, hooks, unhooked_parents(parent_of, hooks, keys));
}

/// At the end the parent of every hooked handle but the instance is hooked too.
pub proof fn law_closure_hooks_all_parents(
    parent_of: Names,
    hooks: Names,
    keys: Seq<Seq<char>>,
    k: Seq<char>,
)
    requires
        parent_of.dom().finite(),
        forall|h: Seq<char>| #[trigger] hooks.contains_key(h) <==> keys.contains(h),
        closure_of(parent_of, hooks, keys) is Some,
        closure_of(parent_of, hooks, keys)->Some_0.0.contains_key(k),
        k != "Instance"@,
    ensures
        closure_of(parent_of, hooks, keys)->Some_0.0.contains_key(short_parent(parent_of, k)),
{
    let first = unhooked_parents(parent_of, hooks, keys);
    let (end, added) = closure_of(parent_of, hooks, keys)->Some_0;
    let up = short_parent(parent_of, k);
    lemma_unhooked(parent_of, hooks, keys);
    lemma_closed(parent_of, hooks, first);
    if hooks.contains_key(k) {
        let i = choose|i: int| 0 <= i < keys.len() && keys[i] == k;
        assert(keys[i] != "Instance"@);
        assert(parent_in(parent_of, keys, up));
        if !hooks.contains_key(up) {
            assert(first.contains(up));
            assert(added.contains(up));
        }
        assert(end.contains_key(up));
    } else {
        assert(added.contains(k));
    }
}

/// The parent of each of `keys` but the instance is hooked.
pub open spec fn parents_hooked(parent_of: Names, hooks: Names, keys: Seq<Seq<char>>) -> bool {
    forall|i: int|
        0 <= i < keys.len() && keys[i] != "Instance"@ ==> hooks.contains_key(
            short_parent(parent_of, #[trigger] keys[i]),
        )
}

/// Where the parent of every hooked handle but the instance is hooked, nothing is added and the
/// hooks stay as they are.
pub proof fn law_closed_hooks_stay(parent_of: Names, hooks: Names, keys: Seq<Seq<char>>)
    requires
        parent_of.dom().finite(),
        forall|h: Seq<char>| #[trigger] hooks.contains_key(h) <==> keys.contains(h),
        all_placed(parent_of, keys),
        parents_hooked(parent_of, hooks, keys),
    ensures
        ways_known(parent_of, keys),
        closure_of(parent_of, hooks, keys) == Some((hooks, Seq::<Seq<char>>::empty())),
{
    let first = unhooked_parents(parent_of, hooks, keys);
    lemma_unhooked(parent_of, hooks, keys);
    if first.len() > 0 {
        assert(first.contains(first[0]));
        assert(parent_in(parent_of, keys, first[0]));
    }
    assert(first =~= Seq::empty());
    law_closure_exists(parent_of, hooks, keys);
}

/// Hooks that were closed once can be closed again, which adds nothing and leaves them as they
/// are.
pub proof fn law_closing_twice_adds_nothing(
    parent_of: Names,
    hooks: Names,
    keys: Seq<Seq<char>>,
    end_keys: Seq<Seq<char>>,
)
    requires
        parent_of.dom().finite(),
        forall|h: Seq<char>| #[trigger] hooks.contains_key(h) <==> keys.contains(h),
        closure_of(parent_of, hooks, keys) is Some,
        forall|h: Seq<char>| #[trigger]
            closure_of(parent_of, hooks, keys)->Some_0.0.contains_key(h) <==> end_keys.contains(h),
    ensures
        ways_known(parent_of, end_keys),
        ({
            let end = closure_of(parent_of, hooks, keys)->Some_0.0;
            closure_of(parent_of, end, end_keys) == Some((end, Seq::<Seq<char>>::empty()))
        }),
{
    let (end, added) = closure_of(parent_of, hooks, keys)->Some_0;
    assert forall|i: int| 0 <= i < end_keys.len() implies placed(parent_of, #[trigger] end_keys[i])
        && (end_keys[i] != "Instance"@ ==> end.contains_key(
        short_parent(parent_of, end_keys[i]),
    )) by {
        let k = end_keys[i];
        assert(end_keys.contains(k));
        assert(end.contains_key(k));
        lemma_hooked_is_placed(parent_of, hooks, keys, k);
        if k != "Instance"@ {
            law_closure_hooks_all_parents(parent_of, hooks, keys, k);
        }
    }
    law_closed_hooks_stay(parent_of, end, end_keys);
}

/// No handle that is hooked at the end lacks a parent.
proof fn lemma_hooked_is_placed(
    parent_of: Names,
    hooks: Names,
    keys: Seq<Seq<char>>,
    k: Seq<char>,
)
    requires
        parent_of.dom().finite(),
        forall|h: Seq<char>| #[trigger] hooks.contains_key(h) <==> keys.contains(h),
        closure_of(parent_of, hooks, keys) is Some,
        closure_of(parent_of, hooks, keys)->Some_0.0.contains_key(k),
    ensures
        placed(parent_of, k),
{
    let (end, added) = closure_of(parent_of, hooks, keys)->Some_0;
    lemma_unhooked(parent_of, hooks, keys);
    lemma_closed(parent_of, hooks, unhooked_parents(parent_of, hooks, keys));
    if hooks.contains_key(k) {
        let i = choose|i: int| 0 <= i < keys.len() && keys[i] == k;
        assert(placed(parent_of, keys[i]));
    } else {
        assert(added.contains(k));
        let i = choose|i: int| 0 <= i < added.len() && added[i] == k;
        assert(placed(parent_of, added[i]));
    }
}

/// All parents of the hooked handles can be hooked exactly if no way up from a hooked handle
/// comes to one that lacks a parent.
pub proof fn law_closure_exists(parent_of: Names, hooks: Names, keys: Seq<Seq<char>>)
    requires
        parent_of.dom().finite(),
        forall|h: Seq<char>| #[trigger] hooks.contains_key(h) <==> keys.contains(h),
    ensures
        closure_of(parent_of, hooks, keys) is Some <==> ways_known(parent_of, keys),
{
    if closure_of(parent_of, hooks, keys) is Some {
        let end = closure_of(parent_of, hooks, keys)->Some_0.0;
        assert forall|i: int, n: nat| 0 <= i < keys.len() implies placed(
            parent_of,
            #[trigger] ancestor(parent_of, keys[i], n),
        ) by {
            assert(keys.contains(keys[i]));
            assert(hooks.contains_key(keys[i]));
            law_closure_adds_default_hooks(parent_of, hooks, keys, keys[i]);
            lemma_way_stays_hooked(parent_of, hooks, keys, keys[i], n);
        }
    }
    if ways_known(parent_of, keys) {
        assert forall|i: int| 0 <= i < keys.len() implies placed(parent_of, #[trigger] keys[i]) by {
            assert(placed(parent_of, ancestor(parent_of, keys[i], 0)));
        }
        lemma_unhooked(parent_of, hooks, keys);
        lemma_parents_known(parent_of, hooks, keys);
        lemma_known_closes(parent_of, hooks, unhooked_parents(parent_of, hooks, keys));
    }
}

proof fn lemma_way_stays_hooked(
    parent_of: Names,
    hooks: Names,
    keys: Seq<Seq<char>>,
    k: Seq<char>,
    n: nat,
)
    requires
        parent_of.dom().finite(),
        forall|h: Seq<char>| #[trigger] hooks.contains_key(h) <==> keys.contains(h),
        closure_of(parent_of, hooks, keys) is Some,
        closure_of(parent_of, hooks, keys)->Some_0.0.contains_key(k),
    ensures
        placed(parent_of, ancestor(parent_of, k, n)),
    decreases n,
{
    lemma_hooked_is_placed(parent_of, hooks, keys, k);
    if n > 0 && k != "Instance"@ {
        law_closure_hooks_all_parents(parent_of, hooks, keys, k);
        lemma_way_stays_hooked(
            parent_of,
            hooks,
            keys,
            short_parent(parent_of, k),
            (n - 1) as nat,
        );
    }
}

/// The way up from a parent is part of the way up from its child.
proof fn lemma_parents_known(parent_of: Names, hooks: Names, keys: Seq<Seq<char>>)
    requires
        ways_known(parent_of, keys),
    ensures
        ways_known(parent_of, unhooked_parents(parent_of, hooks, keys)),
{
    let up = unhooked_parents(parent_of, hooks, keys);
    lemma_unhooked(parent_of, hooks, keys);
    assert forall|i: int, n: nat| 0 <= i < up.len() implies placed(
        parent_of,
        #[trigger] ancestor(parent_of, up[i], n),
    ) by {
        assert(up.contains(up[i]));
        assert(parent_in(parent_of, keys, up[i]));
        let j = choose|j: int|
            0 <= j < keys.len() && #[trigger] keys[j] != "Instance"@ && short_parent(
                parent_of,
                keys[j],
            ) == up[i];
        assert(ancestor(parent_of, keys[j], n + 1) == ancestor(parent_of, up[i], n));
        assert(placed(parent_of, ancestor(parent_of, keys[j], n + 1)));
    }
}

proof fn lemma_known_closes(parent_of: Names, hooks: Names, added: Seq<Seq<char>>)
    requires
        parent_of.dom().finite(),
        none_hooked(hooks, added),
        ways_known(parent_of, added),
    ensures
        closed_under_parents(parent_of, hooks, added) is Some,
    decreases open_handles(parent_of, hooks).len(),
{
    assert forall|i: int| 0 <= i < added.len() implies placed(parent_of, #[trigger] added[i]) by {
        assert(placed(parent_of, ancestor(parent_of, added[i], 0)));
    }
    lemma_round(parent_of, hooks, added);
    if added.len() > 0 {
        let now = hooks_after(hooks, added);
        lemma_parents_known(parent_of, now, added);
        lemma_known_closes(parent_of, now, unhooked_parents(parent_of, now, added));
    }
}

/// A handle's type is its name behind `Xr`, and so is its parent's; its default hook is named
/// after it.
pub proof fn law_names_of_handles(parent_of: Names, handle: Seq<char>, parent: Seq<char>)
    ensures
        parent_of.contains_key("Xr"@ + handle) && parent_of["Xr"@ + handle] == "Xr"@ + parent
            ==> has_parent(parent_of, handle) && short_parent(parent_of, handle) == parent,
        has_parent(parent_of, handle) ==> parent_of.contains_key("Xr"@ + handle) && parent_of["Xr"@
            + handle] == "Xr"@ + short_parent(parent_of, handle),
        placed(parent_of, handle) <==> handle == "Instance"@ || has_parent(parent_of, handle),
        default_hook(handle) == "Default"@ + handle + "Hook"@,
        ancestor(parent_of, handle, 0) == handle,
        ancestor(parent_of, "Instance"@, 1) == "Instance"@,
        handle != "Instance"@ ==> ancestor(parent_of, handle, 1) == short_parent(
            parent_of,
            handle,
        ),
{
    reveal_strlit("Xr");
    reveal_with_fuel(ancestor, 2);
    assert(("Xr"@ + parent).subrange(2, ("Xr"@ + parent).len() as int) =~= parent);
    assert(("Xr"@ + parent).subrange(0, 2) =~= "Xr"@);
    if has_parent(parent_of, handle) {
        let t = parent_of["Xr"@ + handle];
        assert(t =~= "Xr"@ + t.subrange(2, t.len() as int));
    }
}

/// The way up goes from parent to parent.
pub proof fn law_way_up(parent_of: Names, handle: Seq<char>, n: nat)
    requires
        handle != "Instance"@,
    ensures
        ancestor(parent_of, handle, n + 1) == ancestor(
            parent_of,
            short_parent(parent_of, handle),
            n,
        ),
{
}

/// Closing the hooks says what the closure is, or that there is none.
pub proof fn law_hooks_are_closed(parent_of: &TextMap)
    requires
        parent_of.wf(),
    ensures
        forall|hooks: &mut TextMap, r: Option<Vec<String>>| #[trigger]
            call_ensures(close_hooks, (hooks, parent_of), r) ==> {
                let closure = closure_of(parent_of@, (*hooks)@, (*hooks).keys());
                &&& r is None <==> closure is None
                &&& r matches Some(list) ==> closure == Some(((*final(hooks))@, texts(list@)))
            },
        forall|hooks: &mut TextMap, r: Vec<String>| #[trigger]
            call_ensures(find_closure, (hooks, parent_of), r) ==> {
                &&& closure_of(parent_of@, (*hooks)@, (*hooks).keys()) == Some(
                    ((*final(hooks))@, texts(r@)),
                )
                &&& texts(r@).no_duplicates()
            },
{
}

} // verus!
