//! The registry of OpenXR handles: who owns whom, and what is attached to each handle.
//!
//! Every handle that the layer hooks is registered under its parent; an instance is its own
//! parent. Destroying a handle destroys everything below it.

use crate::store::{
    data_entries, data_get, data_insert, data_new, data_remove, owned_add, owned_discard,
    owned_entries, owned_members, owned_new, owned_remove, owner_entries, owner_get, owner_insert,
    owner_new, owner_remove, ObjectData,
};
use crate::text::{hex_digits, hex_text, join};
use crate::xr_result::{
    XrErr, XrResult, ERROR_EXTENSION_NOT_PRESENT, ERROR_HANDLE_INVALID, SUCCESS,
};
use dashmap::DashMap;
use std::collections::HashSet;
use vstd::prelude::*;

verus! {

/// Why a handle could not be looked up.
#[derive(Debug)]
pub enum RegisterationError {
    /// The handle is not in the registry.
    NotFound(u64),
    /// The handle is there, but what is attached to it is of another type.
    TypeMismatch(u64, &'static str),
}

impl vstd::std_specs::convert::FromSpecImpl<RegisterationError> for XrErr {
    open spec fn obeys_from_spec() -> bool {
        true
    }

    open spec fn from_spec(_value: RegisterationError) -> XrErr {
        XrErr { code: ERROR_HANDLE_INVALID }
    }
}

impl From<RegisterationError> for XrErr {
    fn from(_value: RegisterationError) -> (r: XrErr) {
        XrErr { code: ERROR_HANDLE_INVALID }
    }
}

impl RegisterationError {
    /// Says what is wrong in words.
    pub fn message(&self) -> (r: String)
        ensures
            r@ == (match *self {
                RegisterationError::NotFound(handle) => "handle 0x"@ + hex_digits(handle as nat)
                    + " not found in the registery"@,
                RegisterationError::TypeMismatch(handle, target) => "handle 0x"@ + hex_digits(
                    handle as nat,
                ) + " is not a "@ + target@,
            }),
    {
        proof {
            reveal_strlit("handle ");
            reveal_strlit("0x");
            reveal_strlit("handle 0x");
            assert("handle "@ + "0x"@ =~= "handle 0x"@);
        }
        match *self {
            RegisterationError::NotFound(handle) => {
                let mut out: String = join("handle ", hex_text(handle).as_str());
                out.append(" not found in the registery");
                assert(out@ =~= "handle 0x"@ + hex_digits(handle as nat)
                    + " not found in the registery"@);
                out
            },
            RegisterationError::TypeMismatch(handle, target) => {
                let mut out: String = join("handle ", hex_text(handle).as_str());
                out.append(" is not a ");
                out.append(target);
                assert(out@ =~= "handle 0x"@ + hex_digits(handle as nat) + " is not a "@ + target@);
                out
            },
        }
    }
}

/// The contents of a registry.
pub struct RegistryState {
    /// The parent of each registered handle.
    pub owner: Map<u64, u64>,
    /// The children of a handle.
    pub owned: Map<u64, Set<u64>>,
    /// What is attached to each registered handle.
    pub data: Map<u64, ObjectData>,
}

/// `x` is registered below another handle.
pub open spec fn linked(owner: Map<u64, u64>, x: u64) -> bool {
    owner.contains_key(x) && owner[x] != x
}

/// `n` steps from child to parent lead from `x` to `top`.
pub open spec fn climbs(owner: Map<u64, u64>, x: u64, top: u64, n: nat) -> bool
    decreases n,
{
    if n == 0 {
        x == top
    } else {
        linked(owner, x) && climbs(owner, owner[x], top, (n - 1) as nat)
    }
}

/// `x` is `top` or stands below it.
pub open spec fn in_subtree(owner: Map<u64, u64>, x: u64, top: u64) -> bool {
    exists|n: nat| #[trigger] climbs(owner, x, top, n)
}

/// The way up from `x` ends at `end`: at a handle that is its own parent, or at one that is not
/// registered.
pub open spec fn chain_end(owner: Map<u64, u64>, x: u64, end: u64) -> bool {
    in_subtree(owner, x, end) && !linked(owner, end)
}

/// The way up from `x` ends somewhere.
pub open spec fn chain_ends(owner: Map<u64, u64>, x: u64) -> bool {
    exists|end: u64| #[trigger] chain_end(owner, x, end)
}

/// The instance that `x` belongs to: the end of the way up, if that is registered.
pub open spec fn instance_of(owner: Map<u64, u64>, x: u64) -> Option<u64> {
    let end = choose|end: u64| #[trigger] chain_end(owner, x, end);
    if owner.contains_key(end) {
        Some(end)
    } else {
        None
    }
}

impl RegistryState {
    /// The parents and the sets of children say the same, and exactly the handles that have a
    /// parent have data.
    pub open spec fn consistent(self) -> bool {
        &&& self.owner.dom().finite()
        &&& self.data.dom() == self.owner.dom()
        &&& forall|c: u64| #[trigger]
            self.owner.contains_key(c) ==> self.owned.contains_key(self.owner[c])
                && self.owned[self.owner[c]].contains(c)
        &&& forall|p: u64, c: u64|
            self.owned.contains_key(p) && #[trigger] self.owned[p].contains(c)
                ==> self.owner.contains_key(c) && self.owner[c] == p
    }

    /// No handle stands below itself.
    pub open spec fn acyclic(self) -> bool {
        forall|x: u64| #[trigger] self.owner.contains_key(x) ==> chain_ends(self.owner, x)
    }

    pub open spec fn wf(self) -> bool {
        self.consistent() && self.acyclic()
    }

    /// The contents after `obj` was registered below `parent`.
    pub open spec fn with_object(self, obj: u64, parent: u64, data: ObjectData) -> RegistryState {
        RegistryState {
            owner: self.owner.insert(obj, parent),
            owned: self.owned.insert(
                parent,
                (if self.owned.contains_key(parent) {
                    self.owned[parent]
                } else {
                    Set::empty()
                }).insert(obj),
            ),
            data: self.data.insert(obj, data),
        }
    }

    /// The contents without `obj` and everything below it.
    pub open spec fn without_subtree(self, obj: u64) -> RegistryState {
        RegistryState {
            owner: Map::new(
                |x: u64| self.owner.contains_key(x) && !in_subtree(self.owner, x, obj),
                |x: u64| self.owner[x],
            ),
            owned: Map::new(
                |p: u64| self.owned.contains_key(p) && !in_subtree(self.owner, p, obj),
                |p: u64| self.owned[p].remove(obj),
            ),
            data: Map::new(
                |x: u64| self.data.contains_key(x) && !in_subtree(self.owner, x, obj),
                |x: u64| self.data[x],
            ),
        }
    }
}

/// A handle's hook and the high-level object that it is attached to, for reading.
#[derive(Debug, Clone, Copy)]
pub struct WithHook {
    pub data: ObjectData,
}

impl WithHook {
    pub fn get(&self) -> (r: u64)
        ensures
            r == self.data.high,
    {
        self.both().1
    }

    pub fn hook(&self) -> (r: u64)
        ensures
            r == self.data.hook,
    {
        self.both().0
    }

    pub fn both(&self) -> (r: (u64, u64))
        ensures
            r == (self.data.hook, self.data.high),
    {
        (self.data.hook, self.data.high)
    }
}

/// A handle's hook and the high-level object that it is attached to, for changing.
#[derive(Debug, Clone, Copy)]
pub struct WithHookMut {
    pub data: ObjectData,
}

impl WithHookMut {
    pub fn get(&mut self) -> (r: u64)
        ensures
            r == old(self).data.high,
            *final(self) == *old(self),
    {
        self.both().1
    }

    pub fn hook(&mut self) -> (r: u64)
        ensures
            r == old(self).data.hook,
            *final(self) == *old(self),
    {
        self.both().0
    }

    pub fn both(&mut self) -> (r: (u64, u64))
        ensures
            r == (old(self).data.hook, old(self).data.high),
            *final(self) == *old(self),
    {
        (self.data.hook, self.data.high)
    }
}

/// The handles known to the layer.
pub struct Registry {
    data: DashMap<u64, ObjectData>,
    owner: DashMap<u64, u64>,
    owned: DashMap<u64, HashSet<u64>>,
}

impl View for Registry {
    type V = RegistryState;

    closed spec fn view(&self) -> RegistryState {
        RegistryState {
            owner: owner_entries(self.owner),
            owned: owned_entries(self.owned),
            data: data_entries(self.data),
        }
    }
}

impl Registry {
    /// A registry without handles.
    pub fn new() -> (r: Registry)
        ensures
            r@.owner == Map::<u64, u64>::empty(),
            r@.owned == Map::<u64, Set<u64>>::empty(),
            r@.data == Map::<u64, ObjectData>::empty(),
            r@.wf(),
    {
        Registry { data: data_new(), owner: owner_new(), owned: owned_new() }
    }

    /// Registers `obj` below `parent`, with what is attached to it.
    pub fn register_object(&mut self, obj: u64, parent: u64, data: ObjectData)
        ensures
            final(self)@ == old(self)@.with_object(obj, parent, data),
    {
        owner_insert(&mut self.owner, obj, parent);
        owned_add(&mut self.owned, parent, obj);
        data_insert(&mut self.data, obj, data);
    }

    /// Forgets what is attached to `obj`.
    pub fn remove_data(&mut self, obj: u64)
        ensures
            final(self)@.owner == old(self)@.owner,
            final(self)@.owned == old(self)@.owned,
            final(self)@.data == old(self)@.data.remove(obj),
    {
        data_remove(&mut self.data, obj);
    }

    /// The instance that `obj` belongs to.
    pub fn find_instance(&self, obj: u64) -> (r: XrResult<u64>)
        requires
            chain_ends(self@.owner, obj),
        ensures
            r == (match instance_of(self@.owner, obj) {
                Some(instance) => XrResult::<u64>::Ok(instance),
                None => Err(XrErr { code: ERROR_HANDLE_INVALID }),
            }),
    {
        let ghost owner = self@.owner;
        let ghost end = choose|end: u64| #[trigger] chain_end(owner, obj, end);
        let ghost mut left: nat = choose|n: nat| #[trigger] climbs(owner, obj, end, n);
        let mut curr: u64 = obj;
        loop
            invariant
                owner == self@.owner,
                climbs(owner, curr, end, left),
                chain_end(owner, obj, end),
                end == (choose|end: u64| #[trigger] chain_end(owner, obj, end)),
            decreases left,
        {
            let parent: u64 = match owner_get(&self.owner, curr) {
                Some(parent) => parent,
                None => {
                    assert(left == 0);
                    return Err(XrErr { code: ERROR_HANDLE_INVALID });
                },
            };
            if parent == curr {
                assert(left == 0);
                return Ok(curr);
            }
            assert(left > 0);
            curr = parent;
            proof {
                left = (left - 1) as nat;
            }
        }
    }
}

/// A way up in a part of the registry is one in the whole.
proof fn lemma_climbs_mono(part: Map<u64, u64>, whole: Map<u64, u64>, x: u64, top: u64, n: nat)
    requires
        climbs(part, x, top, n),
        part.submap_of(whole),
    ensures
        climbs(whole, x, top, n),
    decreases n,
{
    if n > 0 {
        lemma_climbs_mono(part, whole, part[x], top, (n - 1) as nat);
    }
}

/// Two ways up can be joined.
proof fn lemma_climbs_join(owner: Map<u64, u64>, x: u64, mid: u64, top: u64, n: nat, m: nat)
    requires
        climbs(owner, x, mid, n),
        climbs(owner, mid, top, m),
    ensures
        climbs(owner, x, top, n + m),
    decreases n,
{
    if n > 0 {
        lemma_climbs_join(owner, owner[x], mid, top, (n - 1) as nat, m);
    }
}

/// `x` stands below one of `tops`.
spec fn below_any(owner: Map<u64, u64>, x: u64, tops: Seq<u64>) -> bool {
    exists|j: int| 0 <= j < tops.len() && #[trigger] in_subtree(owner, x, tops[j])
}

/// `part` is `whole` without what stands below one of `tops`.
spec fn pruned(part: Map<u64, u64>, whole: Map<u64, u64>, tops: Seq<u64>) -> bool {
    &&& forall|x: u64| #[trigger]
        part.contains_key(x) <==> whole.contains_key(x) && !below_any(whole, x, tops)
    &&& forall|x: u64| #[trigger] part.contains_key(x) ==> part[x] == whole[x]
}

/// A way up from a handle that was kept was kept whole.
proof fn lemma_climbs_pruned(
    part: Map<u64, u64>,
    whole: Map<u64, u64>,
    tops: Seq<u64>,
    x: u64,
    top: u64,
    n: nat,
)
    requires
        pruned(part, whole, tops),
        !below_any(whole, x, tops),
        climbs(whole, x, top, n),
    ensures
        climbs(part, x, top, n),
    decreases n,
{
    if n > 0 {
        let p: u64 = whole[x];
        if below_any(whole, p, tops) {
            let j: int = choose|j: int|
                0 <= j < tops.len() && #[trigger] in_subtree(whole, p, tops[j]);
            let m: nat = choose|m: nat| #[trigger] climbs(whole, p, tops[j], m);
            assert(climbs(whole, x, tops[j], (m + 1) as nat));
            assert(in_subtree(whole, x, tops[j]));
        }
        assert(part.contains_key(x));
        lemma_climbs_pruned(part, whole, tops, p, top, (n - 1) as nat);
    }
}

/// For a handle that was kept, standing below `top` means the same before and after.
proof fn lemma_in_subtree_pruned(
    part: Map<u64, u64>,
    whole: Map<u64, u64>,
    tops: Seq<u64>,
    x: u64,
    top: u64,
)
    requires
        pruned(part, whole, tops),
        !below_any(whole, x, tops),
    ensures
        in_subtree(part, x, top) <==> in_subtree(whole, x, top),
{
    if in_subtree(part, x, top) {
        let n: nat = choose|n: nat| #[trigger] climbs(part, x, top, n);
        assert(part.submap_of(whole));
        lemma_climbs_mono(part, whole, x, top, n);
    }
    if in_subtree(whole, x, top) {
        let n: nat = choose|n: nat| #[trigger] climbs(whole, x, top, n);
        lemma_climbs_pruned(part, whole, tops, x, top, n);
    }
}

/// The subtree of `obj` is `obj` and the subtrees of its children, once `obj` is unlinked.
proof fn lemma_subtree_split(s: RegistryState, obj: u64, children: Seq<u64>, x: u64)
    requires
        s.consistent(),
        s.owner.contains_key(obj),
        forall|c: u64| #[trigger]
            children.contains(c) <==> c != obj && s.owner.contains_key(c) && s.owner[c] == obj,
    ensures
        in_subtree(s.owner, x, obj) <==> x == obj || below_any(s.owner.remove(obj), x, children),
{
    let rest = s.owner.remove(obj);
    if in_subtree(s.owner, x, obj) {
        let n: nat = choose|n: nat| #[trigger] climbs(s.owner, x, obj, n);
        lemma_subtree_split_down(s, obj, children, x, n);
    }
    if x == obj {
        assert(climbs(s.owner, x, obj, 0));
    } else if below_any(rest, x, children) {
        let j: int = choose|j: int|
            0 <= j < children.len() && #[trigger] in_subtree(rest, x, children[j]);
        let c: u64 = children[j];
        assert(children.contains(c));
        let n: nat = choose|n: nat| #[trigger] climbs(rest, x, c, n);
        assert(rest.submap_of(s.owner));
        lemma_climbs_mono(rest, s.owner, x, c, n);
        assert(climbs(s.owner, obj, obj, 0));
        assert(climbs(s.owner, c, obj, 1));
        lemma_climbs_join(s.owner, x, c, obj, n, 1);
    }
}

proof fn lemma_subtree_split_down(
    s: RegistryState,
    obj: u64,
    children: Seq<u64>,
    x: u64,
    n: nat,
)
    requires
        s.consistent(),
        s.owner.contains_key(obj),
        forall|c: u64| #[trigger]
            children.contains(c) <==> c != obj && s.owner.contains_key(c) && s.owner[c] == obj,
        climbs(s.owner, x, obj, n),
    ensures
        x == obj || below_any(s.owner.remove(obj), x, children),
    decreases n,
{
    let rest = s.owner.remove(obj);
    if x != obj {
        let p: u64 = s.owner[x];
        if p == obj {
            assert(children.contains(x));
            let j: int = choose|j: int| 0 <= j < children.len() && children[j] == x;
            assert(climbs(rest, x, children[j], 0));
            assert(in_subtree(rest, x, children[j]));
        } else {
            lemma_subtree_split_down(s, obj, children, p, (n - 1) as nat);
            let j: int = choose|j: int|
                0 <= j < children.len() && #[trigger] in_subtree(rest, p, children[j]);
            let m: nat = choose|m: nat| #[trigger] climbs(rest, p, children[j], m);
            assert(climbs(rest, x, children[j], (m + 1) as nat));
            assert(in_subtree(rest, x, children[j]));
        }
    }
}

/// The contents with `obj` unlinked from its parent, and its children still there.
spec fn detached(s: RegistryState, obj: u64) -> RegistryState {
    RegistryState {
        owner: s.owner.remove(obj),
        owned: s.owned.insert(s.owner[obj], s.owned[s.owner[obj]].remove(obj)),
        data: s.data.remove(obj),
    }
}

/// The contents that are left of `s` when the first of the children of the unlinked `obj` are
/// gone, with everything below them.
spec fn partly_cleared(t: RegistryState, s: RegistryState, gone: Seq<u64>) -> bool {
    &&& pruned(t.owner, s.owner, gone)
    &&& forall|x: u64| #[trigger]
        t.data.contains_key(x) <==> s.data.contains_key(x) && !below_any(s.owner, x, gone)
    &&& forall|x: u64| #[trigger] t.data.contains_key(x) ==> t.data[x] == s.data[x]
    &&& forall|p: u64| #[trigger]
        t.owned.contains_key(p) <==> s.owned.contains_key(p) && !below_any(s.owner, p, gone)
    &&& forall|p: u64| #[trigger]
        t.owned.contains_key(p) ==> t.owned[p] == s.owned[p].difference(gone.to_set())
}

/// Taking out the subtree of one more child.
proof fn lemma_clear_next(
    s: RegistryState,
    t: RegistryState,
    next: RegistryState,
    gone: Seq<u64>,
    child: u64,
)
    requires
        partly_cleared(t, s, gone),
        next == t.without_subtree(child),
        !below_any(s.owner, child, gone),
    ensures
        partly_cleared(next, s, gone.push(child)),
{
    let more = gone.push(child);
    assert forall|x: u64| #[trigger]
        below_any(s.owner, x, more) <==> below_any(s.owner, x, gone) || in_subtree(
            s.owner,
            x,
            child,
        ) by {
        if below_any(s.owner, x, gone) {
            let j: int = choose|j: int|
                0 <= j < gone.len() && #[trigger] in_subtree(s.owner, x, gone[j]);
            assert(more[j] == gone[j]);
        }
        if in_subtree(s.owner, x, child) {
            assert(more[gone.len() as int] == child);
        }
        if below_any(s.owner, x, more) {
            let j: int = choose|j: int|
                0 <= j < more.len() && #[trigger] in_subtree(s.owner, x, more[j]);
            if j < gone.len() {
                assert(more[j] == gone[j]);
            }
        }
    }
    assert forall|x: u64| !below_any(s.owner, x, gone) implies (#[trigger] in_subtree(
        t.owner,
        x,
        child,
    ) <==> in_subtree(s.owner, x, child)) by {
        lemma_in_subtree_pruned(t.owner, s.owner, gone, x, child);
    }
    assert forall|p: u64| #[trigger] next.owned.contains_key(p) implies next.owned[p]
        == s.owned[p].difference(more.to_set()) by {
        assert(more.to_set() =~= gone.to_set().insert(child)) by {
            assert forall|c: u64| more.to_set().contains(c) <==> gone.to_set().insert(
                child,
            ).contains(c) by {
                if gone.contains(c) {
                    let j: int = choose|j: int| 0 <= j < gone.len() && gone[j] == c;
                    assert(more[j] == c);
                }
                if c == child {
                    assert(more[gone.len() as int] == c);
                }
            }
        }
        assert(next.owned[p] =~= s.owned[p].difference(more.to_set()));
    }
}

/// What `without_subtree` leaves is again consistent, and acyclic if it was before.
pub proof fn lemma_without_subtree_wf(s: RegistryState, obj: u64)
    requires
        s.consistent(),
    ensures
        s.without_subtree(obj).consistent(),
        s.acyclic() ==> s.without_subtree(obj).acyclic(),
{
    let t = s.without_subtree(obj);
    let tops = seq![obj];
    assert forall|x: u64| #[trigger] below_any(s.owner, x, tops) <==> in_subtree(s.owner, x, obj) by {
        assert(tops[0] == obj);
    }
    assert(pruned(t.owner, s.owner, tops));
    assert(t.owner.dom().subset_of(s.owner.dom()));
    vstd::set_lib::lemma_len_subset(t.owner.dom(), s.owner.dom());
    assert(t.data.dom() =~= t.owner.dom());
    assert forall|c: u64| #[trigger] t.owner.contains_key(c) implies t.owned.contains_key(
        t.owner[c],
    ) && t.owned[t.owner[c]].contains(c) by {
        let p: u64 = s.owner[c];
        assert(s.owner.contains_key(c));
        if in_subtree(s.owner, p, obj) && p != c {
            let n: nat = choose|n: nat| #[trigger] climbs(s.owner, p, obj, n);
            assert(climbs(s.owner, c, obj, (n + 1) as nat));
        }
        assert(climbs(s.owner, obj, obj, 0));
    }
    assert forall|p: u64, c: u64|
        t.owned.contains_key(p) && #[trigger] t.owned[p].contains(
            c,
        ) implies t.owner.contains_key(c) && t.owner[c] == p by {
        assert(s.owned[p].contains(c));
        if in_subtree(s.owner, c, obj) {
            let n: nat = choose|n: nat| #[trigger] climbs(s.owner, c, obj, n);
            assert(n > 0);
            assert(climbs(s.owner, p, obj, (n - 1) as nat));
        }
    }
    if s.acyclic() {
        assert forall|x: u64| #[trigger] t.owner.contains_key(x) implies chain_ends(t.owner, x) by {
            assert(s.owner.contains_key(x));
            let end: u64 = choose|end: u64| #[trigger] chain_end(s.owner, x, end);
            lemma_in_subtree_pruned(t.owner, s.owner, tops, x, end);
            assert(chain_end(t.owner, x, end));
        }
    }
}

/// Unlinking one handle keeps the registry consistent.
proof fn lemma_detached_consistent(s: RegistryState, obj: u64)
    requires
        s.consistent(),
        s.owner.contains_key(obj),
    ensures
        detached(s, obj).consistent(),
        detached(s, obj).owner.dom().len() < s.owner.dom().len(),
{
    let t = detached(s, obj);
    assert(t.owner.dom() =~= s.owner.dom().remove(obj));
    assert(t.data.dom() =~= t.owner.dom());
}

impl Registry {
    /// Unregisters `obj` and everything below it.
    pub fn unregister_object(&mut self, obj: u64)
        requires
            old(self)@.consistent(),
            old(self)@.owner.contains_key(obj),
        ensures
            final(self)@ == old(self)@.without_subtree(obj),
            final(self)@.consistent(),
            old(self)@.acyclic() ==> final(self)@.acyclic(),
        decreases old(self)@.owner.dom().len(),
    {
        let ghost s = self@;
        self.remove_data(obj);
        let parent: u64 = owner_remove(&mut self.owner, obj).unwrap();
        owned_discard(&mut self.owned, parent, obj);
        let ghost d = detached(s, obj);
        proof {
            lemma_detached_consistent(s, obj);
            assert(self@.owner =~= d.owner);
            assert(self@.owned =~= d.owned);
            assert(self@.data =~= d.data);
        }
        let children: Vec<u64> = match owned_members(&self.owned, obj) {
            Some(children) => children,
            None => Vec::new(),
        };
        proof {
            assert forall|c: u64| #[trigger] children@.contains(c) <==> c != obj
                && s.owner.contains_key(c) && s.owner[c] == obj by {
                if d.owned.contains_key(obj) {
                    assert(children@.to_set().contains(c) <==> d.owned[obj].contains(c));
                }
                if c != obj && s.owner.contains_key(c) && s.owner[c] == obj {
                    assert(s.owned[obj].contains(c));
                }
            }
        }
        let mut k: usize = 0;
        proof {
            assert(children@.take(0) =~= Seq::<u64>::empty());
            assert forall|x: u64| !#[trigger] below_any(d.owner, x, children@.take(0)) by {}
            assert forall|p: u64| #[trigger] d.owned.contains_key(p) implies d.owned[p]
                == d.owned[p].difference(children@.take(0).to_set()) by {
                assert(d.owned[p] =~= d.owned[p].difference(children@.take(0).to_set()));
            }
        }
        while k < children.len()
            invariant
                k <= children.len(),
                s.consistent(),
                s.owner.contains_key(obj),
                d == detached(s, obj),
                d.consistent(),
                d.owner.dom().len() < s.owner.dom().len(),
                children@.no_duplicates(),
                forall|c: u64| #[trigger]
                    children@.contains(c) <==> c != obj && s.owner.contains_key(c) && s.owner[c]
                        == obj,
                partly_cleared(self@, d, children@.take(k as int)),
                self@.consistent(),
                s == old(self)@,
            decreases children.len() - k,
        {
            let child: u64 = children[k];
            let ghost before = self@;
            let ghost gone = children@.take(k as int);
            proof {
                assert(children@.contains(child));
                if below_any(d.owner, child, gone) {
                    let j: int = choose|j: int|
                        0 <= j < gone.len() && #[trigger] in_subtree(d.owner, child, gone[j]);
                    let n: nat = choose|n: nat| #[trigger] climbs(d.owner, child, gone[j], n);
                    assert(children@.contains(children@[j]));
                    if n > 0 {
                        assert(climbs(d.owner, obj, gone[j], (n - 1) as nat));
                    }
                }
                assert(before.owner.contains_key(child));
                assert(before.owner.dom().subset_of(d.owner.dom()));
                vstd::set_lib::lemma_len_subset(before.owner.dom(), d.owner.dom());
            }
            self.unregister_object(child);
            proof {
                lemma_clear_next(d, before, self@, gone, child);
                assert(children@.take(k as int + 1) =~= gone.push(child));
            }
            k += 1;
        }
        proof {
            assert(children@.take(k as int) =~= children@);
            if self@.owned.contains_key(obj) {
                assert(self@.owned[obj] =~= Set::<u64>::empty());
            }
        }
        let ghost last = self@;
        let _left = owned_remove(&mut self.owned, obj);
        proof {
            let t = s.without_subtree(obj);
            assert forall|x: u64| #[trigger] in_subtree(s.owner, x, obj) <==> x == obj || below_any(
                d.owner,
                x,
                children@,
            ) by {
                lemma_subtree_split(s, obj, children@, x);
            }
            assert(self@.owner =~= t.owner);
            assert(self@.data =~= t.data);
            assert forall|p: u64| #[trigger] t.owned.contains_key(p) implies self@.owned[p]
                == t.owned[p] by {
                assert(s.owned.contains_key(p) && p != obj);
                assert(last.owned.contains_key(p));
                assert(last.owned[p] == d.owned[p].difference(children@.to_set()));
                assert forall|c: u64| #[trigger] last.owned[p].contains(c) <==> t.owned[p].contains(
                    c,
                ) by {
                    if s.owned[p].contains(c) {
                        assert(s.owner[c] == p);
                        assert(!children@.contains(c));
                    }
                }
                assert(last.owned[p] =~= t.owned[p]);
                assert(self@.owned[p] == last.owned[p]);
            }
            assert forall|p: u64| self@.owned.contains_key(p) <==> #[trigger] t.owned.contains_key(
                p,
            ) by {
                assert(last.owned.contains_key(p) <==> d.owned.contains_key(p) && !below_any(
                    d.owner,
                    p,
                    children@,
                ));
            }
            assert(self@.owned =~= t.owned);
            lemma_without_subtree_wf(s, obj);
        }
    }
}

/// The answer to a look-up of `handle` that wants `wanted` where `found` says what is there.
pub open spec fn lookup_result<T>(
    handle: u64,
    found: Option<(u64, T)>,
    wanted: u64,
    target: &'static str,
) -> Result<T, RegisterationError> {
    match found {
        None => Err(RegisterationError::NotFound(handle)),
        Some(f) => if f.0 == wanted {
            Ok(f.1)
        } else {
            Err(RegisterationError::TypeMismatch(handle, target))
        },
    }
}

impl RegistryState {
    pub open spec fn data_of(self, handle: u64) -> Option<ObjectData> {
        if self.data.contains_key(handle) {
            Some(self.data[handle])
        } else {
            None
        }
    }

    /// The hook type of `handle`, with a view of its data for reading.
    pub open spec fn hook_entry(self, handle: u64) -> Option<(u64, WithHook)> {
        match self.data_of(handle) {
            Some(data) => Some((data.hook_type, WithHook { data })),
            None => None,
        }
    }

    /// The hook type of `handle`, with a view of its data for changing.
    pub open spec fn hook_entry_mut(self, handle: u64) -> Option<(u64, WithHookMut)> {
        match self.data_of(handle) {
            Some(data) => Some((data.hook_type, WithHookMut { data })),
            None => None,
        }
    }

    /// The type of the high-level object of `handle`, and the object.
    pub open spec fn high_entry(self, handle: u64) -> Option<(u64, u64)> {
        match self.data_of(handle) {
            Some(data) => Some((data.high_type, data.high)),
            None => None,
        }
    }
}

impl Registry {
    /// What is attached to `handle`, if its hook is of type `hook_type`. `target` names the type
    /// of the handle for the error.
    pub fn registered_with_hook(&self, handle: u64, hook_type: u64, target: &'static str) -> (r:
        Result<WithHook, RegisterationError>)
        ensures
            r == lookup_result(handle, self@.hook_entry(handle), hook_type, target),
    {
        match data_get(&self.data, handle) {
            None => Err(RegisterationError::NotFound(handle)),
            Some(data) => if data.hook_type == hook_type {
                Ok(WithHook { data })
            } else {
                Err(RegisterationError::TypeMismatch(handle, target))
            },
        }
    }

    /// As `registered_with_hook`, for a caller that will change what is attached.
    pub fn registered_with_hook_mut(
        &self,
        handle: u64,
        hook_type: u64,
        target: &'static str,
    ) -> (r: Result<WithHookMut, RegisterationError>)
        ensures
            r == lookup_result(handle, self@.hook_entry_mut(handle), hook_type, target),
    {
        match data_get(&self.data, handle) {
            None => Err(RegisterationError::NotFound(handle)),
            Some(data) => if data.hook_type == hook_type {
                Ok(WithHookMut { data })
            } else {
                Err(RegisterationError::TypeMismatch(handle, target))
            },
        }
    }

    /// The high-level object of `handle`, if it is of type `high_type`.
    pub fn registered(&self, handle: u64, high_type: u64, target: &'static str) -> (r: Result<
        u64,
        RegisterationError,
    >)
        ensures
            r == lookup_result(handle, self@.high_entry(handle), high_type, target),
    {
        match data_get(&self.data, handle) {
            None => Err(RegisterationError::NotFound(handle)),
            Some(data) => if data.high_type == high_type {
                Ok(data.high)
            } else {
                Err(RegisterationError::TypeMismatch(handle, target))
            },
        }
    }

    /// Whether `handle` has a parent in the registry.
    pub fn is_registered(&self, handle: u64) -> (r: bool)
        ensures
            r == self@.owner.contains_key(handle),
    {
        owner_get(&self.owner, handle).is_some()
    }

    /// The destroy function of every hooked handle.
    pub fn destroy_object(&mut self, obj: u64) -> (r: XrErr)
        requires
            old(self)@.consistent(),
            old(self)@.owner.contains_key(obj),
        ensures
            r.code == SUCCESS,
            final(self)@ == old(self)@.without_subtree(obj),
            final(self)@.consistent(),
            old(self)@.acyclic() ==> final(self)@.acyclic(),
    {
        self.unregister_object(obj);
        XrErr { code: SUCCESS }
    }
}

/// A handle that was just created, and what is attached to it.
#[derive(Debug, Clone, Copy, PartialEq, Eq, Structural)]
pub struct NewObject {
    pub handle: u64,
    pub data: ObjectData,
}

impl Registry {
    /// The high-level instance that `obj` belongs to, through whose functions the runtime is
    /// called for `obj`.
    pub fn high_instance(&self, obj: u64, high_type: u64, target: &'static str) -> (r: XrResult<
        u64,
    >)
        requires
            chain_ends(self@.owner, obj),
        ensures
            r == (match instance_of(self@.owner, obj) {
                None => XrResult::<u64>::Err(XrErr { code: ERROR_HANDLE_INVALID }),
                Some(instance) => match lookup_result(
                    instance,
                    self@.high_entry(instance),
                    high_type,
                    target,
                ) {
                    Ok(high) => Ok(high),
                    Err(_) => Err(XrErr { code: ERROR_HANDLE_INVALID }),
                },
            }),
    {
        match self.find_instance(obj) {
            Ok(instance) => match self.registered(instance, high_type, target) {
                Ok(high) => Ok(high),
                Err(e) => Err(XrErr::from(e)),
            },
            Err(e) => Err(e),
        }
    }

    /// The hook of a session, for changing, and the hook of the instance that it belongs to.
    pub fn session_hooks(
        &self,
        session: u64,
        session_hook: u64,
        session_target: &'static str,
        instance_hook: u64,
        instance_target: &'static str,
    ) -> (r: XrResult<(WithHookMut, WithHook)>)
        requires
            chain_ends(self@.owner, session),
        ensures
            ({
                let own = lookup_result(
                    session,
                    self@.hook_entry_mut(session),
                    session_hook,
                    session_target,
                );
                match (own, instance_of(self@.owner, session)) {
                    (Ok(own), Some(instance)) => match lookup_result(
                        instance,
                        self@.hook_entry(instance),
                        instance_hook,
                        instance_target,
                    ) {
                        Ok(above) => r == XrResult::<(WithHookMut, WithHook)>::Ok((own, above)),
                        Err(_) => r == XrResult::<(WithHookMut, WithHook)>::Err(
                            XrErr { code: ERROR_HANDLE_INVALID },
                        ),
                    },
                    _ => r == XrResult::<(WithHookMut, WithHook)>::Err(
                        XrErr { code: ERROR_HANDLE_INVALID },
                    ),
                }
            }),
    {
        let own = match self.registered_with_hook_mut(session, session_hook, session_target) {
            Ok(own) => own,
            Err(e) => return Err(XrErr::from(e)),
        };
        let instance: u64 = match self.find_instance(session) {
            Ok(instance) => instance,
            Err(e) => return Err(e),
        };
        match self.registered_with_hook(instance, instance_hook, instance_target) {
            Ok(above) => Ok((own, above)),
            Err(e) => Err(XrErr::from(e)),
        }
    }

    /// The end of every creating function: what was created is registered below `parent`; if
    /// nothing was, the error is the answer and the registry stays as it is. An instance is
    /// registered below itself.
    pub fn finish_create(&mut self, created: XrResult<NewObject>, parent: Option<u64>) -> (r: XrErr)
        ensures
            match created {
                Ok(new) => r.code == SUCCESS && final(self)@ == old(self)@.with_object(
                    new.handle,
                    (match parent {
                        Some(p) => p,
                        None => new.handle,
                    }),
                    new.data,
                ),
                Err(e) => r == e && final(self)@ == old(self)@,
            },
    {
        match created {
            Ok(new) => {
                let parent: u64 = match parent {
                    Some(p) => p,
                    None => new.handle,
                };
                self.register_object(new.handle, parent, new.data);
                XrErr { code: SUCCESS }
            },
            Err(e) => e,
        }
    }
}

/// The function of an extension, which is there if the extension is enabled.
pub fn extension_function(function: Option<u64>) -> (r: XrResult<u64>)
    ensures
        r == (match function {
            Some(f) => XrResult::<u64>::Ok(f),
            None => Err(XrErr { code: ERROR_EXTENSION_NOT_PRESENT }),
        }),
{
    match function {
        Some(f) => Ok(f),
        None => Err(XrErr::new(ERROR_EXTENSION_NOT_PRESENT)),
    }
}

/// What comes of wrapping a handle that was created and of attaching a hook to it. The hook is
/// not asked for if the handle cannot be wrapped.
pub fn invoke_on_create<H, K>(high: XrResult<H>, hook: XrResult<K>) -> (r: XrResult<(H, K)>)
    ensures
        r == (match (high, hook) {
            (Err(e), _) => XrResult::<(H, K)>::Err(e),
            (Ok(_), Err(e)) => Err(e),
            (Ok(h), Ok(k)) => Ok((h, k)),
        }),
{
    match high {
        Err(e) => Err(e),
        Ok(h) => match hook {
            Err(e) => Err(e),
            Ok(k) => Ok((h, k)),
        },
    }
}

/// What a factory makes: the error of the runtime, if `ret` is not plain success; else what comes
/// of wrapping and hooking the handle.
pub fn factory_create<H, K>(ret: XrErr, high: XrResult<H>, hook: XrResult<K>) -> (r: XrResult<
    (H, K),
>)
    ensures
        r == (if ret.code != SUCCESS {
            XrResult::<(H, K)>::Err(ret)
        } else {
            match (high, hook) {
                (Err(e), _) => XrResult::<(H, K)>::Err(e),
                (Ok(_), Err(e)) => Err(e),
                (Ok(h), Ok(k)) => Ok((h, k)),
            }
        }),
{
    if !ret.is_success() {
        return Err(ret);
    }
    invoke_on_create(high, hook)
}

/// A handle without a high-level wrapper. Whoever holds it destroys it.
#[derive(Debug, Clone, Copy, PartialEq, Eq, Structural)]
pub struct Facade {
    pub handle: u64,
}

impl Facade {
    pub fn as_handle(&self) -> (r: u64)
        ensures
            r == self.handle,
    {
        self.handle
    }
}

/// `obj` is not registered, and nothing is registered below it.
pub open spec fn fresh(s: RegistryState, obj: u64) -> bool {
    !s.owner.contains_key(obj) && forall|c: u64| #[trigger]
        s.owner.contains_key(c) ==> s.owner[c] != obj
}

/// Registering a handle that is not registered and has nothing below it keeps the registry consistent and
/// acyclic, whether or not the parent is known.
pub proof fn law_register_keeps_wf(s: RegistryState, obj: u64, parent: u64, data: ObjectData)
    requires
        s.wf(),
        fresh(s, obj),
    ensures
        s.with_object(obj, parent, data).wf(),
{
    let t = s.with_object(obj, parent, data);
    assert(t.data.dom() =~= t.owner.dom());
    assert forall|x: u64| #[trigger] t.owner.contains_key(x) implies chain_ends(t.owner, x) by {
        lemma_registered_chain(s, obj, parent, x);
    }
}

/// After a registration the way up from any registered handle still ends.
proof fn lemma_registered_chain(s: RegistryState, obj: u64, parent: u64, x: u64)
    requires
        s.wf(),
        fresh(s, obj),
        s.owner.contains_key(x) || x == obj,
    ensures
        chain_ends(s.owner.insert(obj, parent), x),
    decreases if x == obj { 1nat } else { 0nat },
{
    let owner = s.owner.insert(obj, parent);
    if x != obj {
        let end: u64 = choose|end: u64| #[trigger] chain_end(s.owner, x, end);
        let n: nat = choose|n: nat| #[trigger] climbs(s.owner, x, end, n);
        lemma_climbs_mono(s.owner, owner, x, end, n);
        lemma_not_under_unknown(s, obj, x, n, end);
        assert(chain_end(owner, x, end));
    } else if parent == obj {
        assert(climbs(owner, obj, obj, 0));
        assert(chain_end(owner, obj, obj));
    } else if s.owner.contains_key(parent) {
        lemma_registered_chain(s, obj, parent, parent);
        let end: u64 = choose|end: u64| #[trigger] chain_end(owner, parent, end);
        let n: nat = choose|n: nat| #[trigger] climbs(owner, parent, end, n);
        assert(climbs(owner, obj, end, (n + 1) as nat));
        assert(chain_end(owner, obj, end));
    } else {
        assert(climbs(owner, parent, parent, 0));
        assert(climbs(owner, obj, parent, 1));
        assert(chain_end(owner, obj, parent));
    }
}

/// No way up leads to a handle that is not registered and has nothing below it.
proof fn lemma_not_under_unknown(s: RegistryState, obj: u64, x: u64, n: nat, top: u64)
    requires
        s.consistent(),
        fresh(s, obj),
        x != obj,
        climbs(s.owner, x, top, n),
    ensures
        top != obj,
    decreases n,
{
    if n > 0 {
        let p: u64 = s.owner[x];
        assert(s.owner.contains_key(x));
        lemma_not_under_unknown(s, obj, p, (n - 1) as nat, top);
    }
}

/// Unregistering a handle right after it was registered gives back the registry as it was
/// before, except for entries without children: the handle has none any more, and a parent that
/// had none has one now. An instance, which is its own parent, leaves nothing behind.
pub proof fn law_unregister_undoes_register(
    s: RegistryState,
    obj: u64,
    parent: u64,
    data: ObjectData,
)
    requires
        s.wf(),
        fresh(s, obj),
    ensures
        s.with_object(obj, parent, data).without_subtree(obj).owner == s.owner,
        s.with_object(obj, parent, data).without_subtree(obj).data == s.data,
        s.with_object(obj, parent, data).without_subtree(obj).owned == (if parent == obj
            || s.owned.contains_key(parent) {
            s.owned
        } else {
            s.owned.insert(parent, Set::empty())
        }).remove(obj),
        s.owned.contains_key(obj) ==> s.owned[obj] == Set::<u64>::empty(),
{
    let t = s.with_object(obj, parent, data);
    let u = t.without_subtree(obj);
    assert(climbs(t.owner, obj, obj, 0));
    assert forall|x: u64| x != obj implies !#[trigger] in_subtree(t.owner, x, obj) by {
        if in_subtree(t.owner, x, obj) {
            let n: nat = choose|n: nat| #[trigger] climbs(t.owner, x, obj, n);
            lemma_leaf_has_nothing_below(s, obj, parent, x, n);
        }
    }
    assert(u.owner =~= s.owner);
    assert(u.data =~= s.data);
    let want = (if parent == obj || s.owned.contains_key(parent) {
        s.owned
    } else {
        s.owned.insert(parent, Set::empty())
    }).remove(obj);
    assert forall|p: u64| #[trigger] u.owned.contains_key(p) implies u.owned[p] == want[p] by {
        if s.owned.contains_key(p) {
            assert(!s.owned[p].contains(obj));
        }
        assert(u.owned[p] =~= want[p]);
    }
    assert(u.owned =~= want);
}

proof fn lemma_leaf_has_nothing_below(s: RegistryState, obj: u64, parent: u64, x: u64, n: nat)
    requires
        s.consistent(),
        fresh(s, obj),
        x != obj,
    ensures
        !climbs(s.owner.insert(obj, parent), x, obj, n),
    decreases n,
{
    let owner = s.owner.insert(obj, parent);
    if n > 0 && linked(owner, x) {
        assert(s.owner.contains_key(x));
        lemma_leaf_has_nothing_below(s, obj, parent, s.owner[x], (n - 1) as nat);
    }
}

/// A way up has one end.
proof fn lemma_chain_end_unique(owner: Map<u64, u64>, x: u64, a: u64, b: u64, n: nat, m: nat)
    requires
        climbs(owner, x, a, n),
        climbs(owner, x, b, m),
        !linked(owner, a),
        !linked(owner, b),
    ensures
        a == b,
    decreases n,
{
    if n > 0 && m > 0 {
        lemma_chain_end_unique(owner, owner[x], a, b, (n - 1) as nat, (m - 1) as nat);
    }
}

/// A handle below `parent` belongs to the instance that `parent` belongs to, and an instance
/// belongs to itself.
pub proof fn law_child_shares_instance(owner: Map<u64, u64>, x: u64)
    requires
        owner.contains_key(x),
        chain_ends(owner, x),
    ensures
        chain_ends(owner, owner[x]),
        instance_of(owner, x) == instance_of(owner, owner[x]),
        owner[x] == x ==> instance_of(owner, x) == Some(x),
{
    let p: u64 = owner[x];
    let end: u64 = choose|end: u64| #[trigger] chain_end(owner, x, end);
    let n: nat = choose|n: nat| #[trigger] climbs(owner, x, end, n);
    if p == x {
        assert(climbs(owner, x, x, 0));
        lemma_chain_end_unique(owner, x, end, x, n, 0);
    } else {
        assert(n > 0);
        assert(climbs(owner, p, end, (n - 1) as nat));
        assert(chain_end(owner, p, end));
        let other: u64 = choose|other: u64| #[trigger] chain_end(owner, p, other);
        let m: nat = choose|m: nat| #[trigger] climbs(owner, p, other, m);
        lemma_chain_end_unique(owner, p, end, other, (n - 1) as nat, m);
    }
}

/// Once a handle is unregistered, it and everything that stood below it is unknown to every
/// look-up, and everything else is found as before.
pub proof fn law_unregister_forgets_subtree(s: RegistryState, obj: u64, x: u64)
    requires
        s.consistent(),
        s.owner.contains_key(obj),
    ensures
        in_subtree(s.owner, x, obj) ==> s.without_subtree(obj).data_of(x) is None,
        !in_subtree(s.owner, x, obj) ==> s.without_subtree(obj).data_of(x) == s.data_of(x),
        s.without_subtree(obj).data_of(obj) is None,
{
    assert(climbs(s.owner, obj, obj, 0));
}

/// Handles that stay registered belong to the same instance before and after another handle is
/// unregistered.
pub proof fn law_unregister_keeps_instances(s: RegistryState, obj: u64, x: u64)
    requires
        s.wf(),
        s.owner.contains_key(x),
        !in_subtree(s.owner, x, obj),
    ensures
        chain_ends(s.without_subtree(obj).owner, x),
        instance_of(s.without_subtree(obj).owner, x) == instance_of(s.owner, x),
{
    let t = s.without_subtree(obj);
    let tops = seq![obj];
    assert forall|y: u64| #[trigger] below_any(s.owner, y, tops) <==> in_subtree(s.owner, y, obj) by {
        assert(tops[0] == obj);
    }
    assert(pruned(t.owner, s.owner, tops));
    let end: u64 = choose|end: u64| #[trigger] chain_end(s.owner, x, end);
    let n: nat = choose|n: nat| #[trigger] climbs(s.owner, x, end, n);
    lemma_climbs_pruned(t.owner, s.owner, tops, x, end, n);
    assert(chain_end(t.owner, x, end));
    let other: u64 = choose|other: u64| #[trigger] chain_end(t.owner, x, other);
    let m: nat = choose|m: nat| #[trigger] climbs(t.owner, x, other, m);
    lemma_chain_end_unique(t.owner, x, end, other, n, m);
    if in_subtree(s.owner, end, obj) {
        let k: nat = choose|k: nat| #[trigger] climbs(s.owner, end, obj, k);
        lemma_climbs_join(s.owner, x, end, obj, n, k);
    }
}

/// What was attached to a handle is what a look-up finds, under its own types and no others, and
/// nothing else is found differently.
pub proof fn law_lookup_finds_what_was_registered(
    s: RegistryState,
    obj: u64,
    parent: u64,
    data: ObjectData,
    wanted: u64,
    target: &'static str,
    other: u64,
)
    ensures
        ({
            let t = s.with_object(obj, parent, data);
            &&& lookup_result(obj, t.hook_entry(obj), wanted, target) == (if wanted
                == data.hook_type {
                Ok::<WithHook, RegisterationError>(WithHook { data })
            } else {
                Err(RegisterationError::TypeMismatch(obj, target))
            })
            &&& lookup_result(obj, t.high_entry(obj), wanted, target) == (if wanted
                == data.high_type {
                Ok::<u64, RegisterationError>(data.high)
            } else {
                Err(RegisterationError::TypeMismatch(obj, target))
            })
            &&& other != obj ==> t.data_of(other) == s.data_of(other)
        }),
{
}

/// A look-up of a handle that was unregistered does not find it.
pub proof fn law_lookup_fails_after_unregister(
    s: RegistryState,
    obj: u64,
    x: u64,
    wanted: u64,
    target: &'static str,
)
    requires
        s.consistent(),
        s.owner.contains_key(obj),
        in_subtree(s.owner, x, obj),
    ensures
        lookup_result(x, s.without_subtree(obj).hook_entry(x), wanted, target) == Err::<
            WithHook,
            RegisterationError,
        >(RegisterationError::NotFound(x)),
        lookup_result(x, s.without_subtree(obj).high_entry(x), wanted, target) == Err::<
            u64,
            RegisterationError,
        >(RegisterationError::NotFound(x)),
{
    law_unregister_forgets_subtree(s, obj, x);
}

/// Registering a handle that is not registered and has nothing below it leaves every registered handle with its
/// instance, and gives the new handle the instance of its parent; a handle that is its own parent
/// is an instance.
pub proof fn law_register_keeps_instances(s: RegistryState, obj: u64, parent: u64, x: u64)
    requires
        s.wf(),
        fresh(s, obj),
        s.owner.contains_key(x),
    ensures
        chain_ends(s.owner.insert(obj, parent), x),
        instance_of(s.owner.insert(obj, parent), x) == instance_of(s.owner, x),
        chain_ends(s.owner.insert(obj, parent), obj),
        parent == x ==> instance_of(s.owner.insert(obj, parent), obj) == instance_of(s.owner, x),
        parent == obj ==> instance_of(s.owner.insert(obj, parent), obj) == Some(obj),
{
    let owner = s.owner.insert(obj, parent);
    let end: u64 = choose|end: u64| #[trigger] chain_end(s.owner, x, end);
    let n: nat = choose|n: nat| #[trigger] climbs(s.owner, x, end, n);
    lemma_climbs_mono(s.owner, owner, x, end, n);
    lemma_not_under_unknown(s, obj, x, n, end);
    assert(chain_end(owner, x, end));
    let other: u64 = choose|other: u64| #[trigger] chain_end(owner, x, other);
    let m: nat = choose|m: nat| #[trigger] climbs(owner, x, other, m);
    lemma_chain_end_unique(owner, x, end, other, n, m);
    lemma_registered_chain(s, obj, parent, obj);
    law_child_shares_instance(owner, obj);
}

/// In a registry without cycles the way up from every handle ends, registered or not.
pub proof fn law_every_way_up_ends(s: RegistryState, x: u64)
    requires
        s.acyclic(),
    ensures
        chain_ends(s.owner, x),
{
    if !s.owner.contains_key(x) {
        assert(climbs(s.owner, x, x, 0));
        assert(chain_end(s.owner, x, x));
    }
}

/// Registering a handle makes `parent` its parent and attaches `data` to it; the parents and the
/// data of all others stay. It is then one of the parent's children, and the children of others
/// stay.
pub proof fn law_handle_is_registered()
    ensures
        forall|r: &mut Registry, obj: u64, parent: u64, data: ObjectData| #[trigger]
            call_ensures(Registry::register_object, (r, obj, parent, data), ()) ==> {
                let before = (*r)@;
                let after = (*final(r))@;
                &&& after.owner == before.owner.insert(obj, parent)
                &&& after.data == before.data.insert(obj, data)
                &&& after.owned.contains_key(parent) && after.owned[parent].contains(obj)
                &&& forall|p: u64|
                    p != parent ==> (#[trigger] after.owned.contains_key(p)
                        <==> before.owned.contains_key(p)) && (before.owned.contains_key(p)
                        ==> after.owned[p] == before.owned[p])
                &&& forall|c: u64|
                    c != obj ==> (#[trigger] after.owned[parent].contains(c) <==> (
                    before.owned.contains_key(parent) && before.owned[parent].contains(c)))
            },
        forall|r: Registry| #[trigger]
            call_ensures(Registry::new, (), r) ==> r@.owner.dom() == Set::<u64>::empty()
                && r@.data.dom() == Set::<u64>::empty(),
{
    assert forall|r: Registry| #[trigger]
        call_ensures(Registry::new, (), r) implies r@.owner.dom() == Set::<u64>::empty()
        && r@.data.dom() == Set::<u64>::empty() by {
        assert(r@.owner.dom() =~= Set::<u64>::empty());
        assert(r@.data.dom() =~= Set::<u64>::empty());
    }
}

/// A handle stands below another exactly if it is that one, or its parent is another handle and
/// stands below it.
pub proof fn law_below_by_parents(owner: Map<u64, u64>, x: u64, top: u64)
    ensures
        in_subtree(owner, top, top),
        x != top ==> (in_subtree(owner, x, top) <==> owner.contains_key(x) && owner[x] != x
            && in_subtree(owner, owner[x], top)),
{
    assert(climbs(owner, top, top, 0));
    if x != top && in_subtree(owner, x, top) {
        let n: nat = choose|n: nat| #[trigger] climbs(owner, x, top, n);
        assert(climbs(owner, owner[x], top, (n - 1) as nat));
    }
    if x != top && owner.contains_key(x) && owner[x] != x && in_subtree(owner, owner[x], top) {
        let n: nat = choose|n: nat| #[trigger] climbs(owner, owner[x], top, n);
        assert(climbs(owner, x, top, n + 1));
    }
}

/// A handle's instance is the registered handle above it, or itself, that is its own parent.
pub proof fn law_instance_is_the_top(owner: Map<u64, u64>, x: u64, top: u64)
    requires
        chain_ends(owner, x),
    ensures
        instance_of(owner, x) == Some(top) <==> in_subtree(owner, x, top) && owner.contains_key(top)
            && owner[top] == top,
{
    let end: u64 = choose|end: u64| #[trigger] chain_end(owner, x, end);
    let n: nat = choose|n: nat| #[trigger] climbs(owner, x, end, n);
    if in_subtree(owner, x, top) && owner.contains_key(top) && owner[top] == top {
        let m: nat = choose|m: nat| #[trigger] climbs(owner, x, top, m);
        lemma_chain_end_unique(owner, x, end, top, n, m);
    }
}

/// Unregistering a handle forgets it and all below it, and nothing else.
pub proof fn law_handle_is_unregistered()
    ensures
        forall|r: &mut Registry, obj: u64| #[trigger]
            call_ensures(Registry::unregister_object, (r, obj), ()) ==> forgets(
                (*r)@,
                (*final(r))@,
                obj,
            ),
        forall|r: &mut Registry, obj: u64, e: XrErr| #[trigger]
            call_ensures(Registry::destroy_object, (r, obj), e) ==> e.code == 0 && forgets(
                (*r)@,
                (*final(r))@,
                obj,
            ),
        forall|r: &mut Registry, obj: u64| #[trigger]
            call_ensures(Registry::remove_data, (r, obj), ()) ==> (*final(r))@.owner == (*r)@.owner
                && (*final(r))@.owned == (*r)@.owned && (*final(r))@.data == (*r)@.data.remove(obj),
{
}

/// What stood below `obj` is gone, and all else is as before, except that `obj` is no child of
/// anything.
pub open spec fn forgets(before: RegistryState, after: RegistryState, obj: u64) -> bool {
    &&& forall|x: u64| #[trigger]
        after.owner.contains_key(x) <==> before.owner.contains_key(x) && !in_subtree(
            before.owner,
            x,
            obj,
        )
    &&& forall|x: u64| #[trigger]
        after.owner.contains_key(x) ==> after.owner[x] == before.owner[x]
    &&& forall|x: u64| #[trigger]
        after.data.contains_key(x) <==> before.data.contains_key(x) && !in_subtree(
            before.owner,
            x,
            obj,
        )
    &&& forall|x: u64| #[trigger]
        after.data.contains_key(x) ==> after.data[x] == before.data[x]
    &&& forall|p: u64| #[trigger]
        after.owned.contains_key(p) <==> before.owned.contains_key(p) && !in_subtree(
            before.owner,
            p,
            obj,
        )
    &&& forall|p: u64| #[trigger]
        after.owned.contains_key(p) ==> after.owned[p] == before.owned[p].remove(obj)
}

/// A look-up finds what a handle was registered with, if it has the wanted type; else it says
/// whether the handle is unknown or of another type.
pub proof fn law_handles_are_looked_up(
    r: &Registry,
    handle: u64,
    wanted: u64,
    target: &'static str,
    hook: Result<WithHook, RegisterationError>,
    hook_mut: Result<WithHookMut, RegisterationError>,
    high: Result<u64, RegisterationError>,
    known: bool,
)
    requires
        call_ensures(Registry::registered_with_hook, (r, handle, wanted, target), hook),
        call_ensures(Registry::registered_with_hook_mut, (r, handle, wanted, target), hook_mut),
        call_ensures(Registry::registered, (r, handle, wanted, target), high),
        call_ensures(Registry::is_registered, (r, handle), known),
    ensures
        known <==> r@.owner.contains_key(handle),
        !r@.data.contains_key(handle) ==> (hook matches Err(e) && e
            == RegisterationError::NotFound(handle)) && (hook_mut matches Err(e) && e
            == RegisterationError::NotFound(handle)) && (high matches Err(e) && e
            == RegisterationError::NotFound(handle)),
        r@.data.contains_key(handle) ==> ({
            let data = r@.data[handle];
            &&& hook is Ok <==> data.hook_type == wanted
            &&& hook matches Ok(h) ==> h.data == data
            &&& hook matches Err(e) ==> e == RegisterationError::TypeMismatch(handle, target)
            &&& hook_mut is Ok <==> data.hook_type == wanted
            &&& hook_mut matches Ok(h) ==> h.data == data
            &&& hook_mut matches Err(e) ==> e == RegisterationError::TypeMismatch(handle, target)
            &&& high is Ok <==> data.high_type == wanted
            &&& high matches Ok(h) ==> h == data.high
            &&& high matches Err(e) ==> e == RegisterationError::TypeMismatch(handle, target)
        }),
{
}

/// What is attached to a handle is given out as it was attached.
pub proof fn law_attached_values(w: &WithHook, f: &Facade)
    ensures
        forall|r: u64| #[trigger] call_ensures(WithHook::get, (w,), r) ==> r == w.data.high,
        forall|r: u64| #[trigger] call_ensures(WithHook::hook, (w,), r) ==> r == w.data.hook,
        forall|r: (u64, u64)| #[trigger]
            call_ensures(WithHook::both, (w,), r) ==> r.0 == w.data.hook && r.1 == w.data.high,
        forall|m: &mut WithHookMut, r: u64| #[trigger]
            call_ensures(WithHookMut::get, (m,), r) ==> r == (*m).data.high && *final(m) == *m,
        forall|m: &mut WithHookMut, r: u64| #[trigger]
            call_ensures(WithHookMut::hook, (m,), r) ==> r == (*m).data.hook && *final(m) == *m,
        forall|r: u64| #[trigger] call_ensures(Facade::as_handle, (f,), r) ==> r == f.handle,
{
}

/// The instance of a handle is found exactly if the way up ends at one, and its object if it is
/// of the wanted type.
pub proof fn law_instance_is_found(
    r: &Registry,
    obj: u64,
    wanted: u64,
    target: &'static str,
    found: XrResult<u64>,
    high: XrResult<u64>,
)
    requires
        chain_ends(r@.owner, obj),
        call_ensures(Registry::find_instance, (r, obj), found),
        call_ensures(Registry::high_instance, (r, obj, wanted, target), high),
    ensures
        found matches Ok(top) ==> in_subtree(r@.owner, obj, top) && r@.owner.contains_key(top)
            && r@.owner[top] == top,
        found is Err ==> forall|top: u64|
            !(#[trigger] in_subtree(r@.owner, obj, top) && r@.owner.contains_key(top)
                && r@.owner[top] == top),
        found matches Err(e) ==> e.code == -12,
        high matches Err(e) ==> e.code == -12,
        high is Ok <==> found is Ok && r@.data.contains_key(found->Ok_0)
            && r@.data[found->Ok_0].high_type == wanted,
        high matches Ok(h) ==> h == r@.data[found->Ok_0].high,
{
    assert forall|top: u64| #[trigger] in_subtree(r@.owner, obj, top) implies (instance_of(
        r@.owner,
        obj,
    ) == Some(top) <==> r@.owner.contains_key(top) && r@.owner[top] == top) by {
        law_instance_is_the_top(r@.owner, obj, top);
    }
    match found {
        Ok(top) => law_instance_is_the_top(r@.owner, obj, top),
        Err(_) => {},
    }
}

/// The hooks of a session and of its instance are both found, or the handle is invalid.
pub proof fn law_session_hooks_are_found(
    r: &Registry,
    session: u64,
    a: u64,
    ta: &'static str,
    b: u64,
    tb: &'static str,
    found: XrResult<(WithHookMut, WithHook)>,
)
    requires
        chain_ends(r@.owner, session),
        call_ensures(Registry::session_hooks, (r, session, a, ta, b, tb), found),
    ensures
        found matches Err(e) ==> e.code == -12,
        found matches Ok((own, above)) ==> r@.data.contains_key(session) && own.data
            == r@.data[session] && own.data.hook_type == a && above.data.hook_type == b,
        found matches Ok((own, above)) ==> instance_of(r@.owner, session) is Some
            && r@.data.contains_key(instance_of(r@.owner, session)->Some_0) && above.data
            == r@.data[instance_of(r@.owner, session)->Some_0],
        r@.data.contains_key(session) && r@.data[session].hook_type == a && (instance_of(
            r@.owner,
            session,
        ) matches Some(i) && r@.data.contains_key(i) && r@.data[i].hook_type == b) ==> found is Ok,
{
}

/// What was created is registered below its parent, or below itself if it has none; if nothing
/// was created, nothing changes and the error is passed on.
pub proof fn law_creation_is_finished()
    ensures
        forall|r: &mut Registry, created: XrResult<NewObject>, parent: Option<u64>, e: XrErr|
         #[trigger]
            call_ensures(Registry::finish_create, (r, created, parent), e) ==> {
                &&& created matches Err(f) ==> e == f && (*final(r))@ == (*r)@
                &&& created matches Ok(new) ==> {
                    let above = match parent {
                        Some(p) => p,
                        None => new.handle,
                    };
                    &&& e.code == 0
                    &&& (*final(r))@.owner == (*r)@.owner.insert(new.handle, above)
                    &&& (*final(r))@.data == (*r)@.data.insert(new.handle, new.data)
                    &&& (*final(r))@.owned.contains_key(above)
                    &&& (*final(r))@.owned[above].contains(new.handle)
                }
            },
{
}

/// A function of an extension is there exactly if the extension is enabled; a factory makes a
/// handle exactly if the runtime created it and it could be wrapped and hooked, and the first
/// error counts.
pub proof fn law_factories_make_handles(
    f: Option<u64>,
    g: XrResult<u64>,
    ret: XrErr,
    high: XrResult<u64>,
    hook: XrResult<u64>,
    r: XrResult<(u64, u64)>,
    s: XrResult<(u64, u64)>,
)
    requires
        call_ensures(extension_function, (f,), g),
        call_ensures(factory_create::<u64, u64>, (ret, high, hook), r),
        call_ensures(invoke_on_create::<u64, u64>, (high, hook), s),
    ensures
        f matches Some(x) ==> (g matches Ok(y) && y == x),
        f is None ==> (g matches Err(e) && e.code == -9),
        s is Ok <==> high is Ok && hook is Ok,
        s matches Ok((h, k)) ==> high == XrResult::<u64>::Ok(h) && hook == XrResult::<u64>::Ok(k),
        high matches Err(e) ==> (s matches Err(x) && x == e),
        high is Ok ==> (hook matches Err(e) ==> (s matches Err(x) && x == e)),
        ret.code == 0 ==> r == s,
        ret.code != 0 ==> (r matches Err(x) && x == ret),
{
}

/// A failed look-up is said in words, with the handle in hexadecimal, and is answered as an
/// invalid handle.
pub proof fn law_failed_look_up(e: &RegisterationError, text: String)
    requires
        call_ensures(RegisterationError::message, (e,), text),
    ensures
        *e matches RegisterationError::NotFound(h) ==> text@ == "handle 0x"@ + hex_digits(h as nat)
            + " not found in the registery"@,
        *e matches RegisterationError::TypeMismatch(h, target) ==> text@ == "handle 0x"@
            + hex_digits(h as nat) + " is not a "@ + target@,
        forall|x: RegisterationError, r: XrErr| #[trigger]
            call_ensures(<XrErr as From<RegisterationError>>::from, (x,), r) ==> r.code == -12,
{
}

} // verus!
