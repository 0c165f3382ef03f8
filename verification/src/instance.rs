//! Instances: which extensions are hidden from the next layer, what is remembered of an instance,
//! and the environment blend modes that it offers.

use crate::extensions::{merge_extensions, merged_names, names_not_in, opt_names};
use crate::lists::has_i32;
use crate::registry::{RegisterationError, WithHook, WithHookMut};
use crate::text::{byte_names, copy_bytes, has_name};
use crate::version::ApiVersion;
use crate::xr_result::{
    XrErr, XrResult, ERROR_HANDLE_INVALID, ERROR_SIZE_INSUFFICIENT, ERROR_VALIDATION_FAILURE,
    SUCCESS,
};
use std::collections::HashMap;
use vstd::prelude::*;
use vstd::string::*;
use vstd::utf8::*;

verus! {

broadcast use vstd::std_specs::hash::group_hash_axioms;

/// What the layer remembers of an instance.
#[derive(Debug)]
pub struct InstanceData {
    /// Whether the application enabled the passthrough extension.
    pub is_passthrough_enabled: bool,
    /// The API version that each Vulkan instance was created with.
    pub instance_api_version: HashMap<u64, ApiVersion>,
}

impl InstanceData {
    pub fn instance_api_version(&self) -> (r: &HashMap<u64, ApiVersion>)
        ensures
            r@ == self.instance_api_version@,
    {
        &self.instance_api_version
    }
}

/// The extension that the layer itself provides.
pub open spec fn passthrough_extension() -> Seq<u8> {
    encode_utf8("XR_HTC_passthrough"@)
}

/// What the next layer is to create an instance with.
#[derive(Debug)]
pub struct InstancePlan {
    /// Whether the application asked for passthrough.
    pub enabled: bool,
    /// The extensions in place of those that the application asked for, if they differ.
    pub names: Option<Vec<Vec<u8>>>,
}

/// Creates instances.
pub struct InstanceFactory;

/// The names without that of the extension that the layer provides.
pub open spec fn hidden(names: Seq<Seq<u8>>) -> Seq<Seq<u8>> {
    names.filter(|n: Seq<u8>| n != passthrough_extension())
}

impl InstanceFactory {
    /// Takes the passthrough extension out of what the application asks for, since the next layer
    /// does not know it.
    pub fn plan(names: &[Vec<u8>]) -> (r: InstancePlan)
        ensures
            r.enabled == byte_names(names@).contains(passthrough_extension()),
            opt_names(r.names) == (if r.enabled {
                Some(hidden(byte_names(names@)))
            } else {
                None
            }),
    {
        let own = "XR_HTC_passthrough".as_bytes();
        if !has_name(names, own) {
            return InstancePlan { enabled: false, names: None };
        }
        let mut own_list: Vec<Vec<u8>> = Vec::new();
        own_list.push(copy_bytes(own));
        let kept = names_not_in(names, own_list.as_slice());
        proof {
            let one = byte_names(own_list@);
            assert(one =~= seq![passthrough_extension()]);
            let a = |e: Seq<u8>| !one.contains(e);
            let b = |n: Seq<u8>| n != passthrough_extension();
            assert forall|e: Seq<u8>| #[trigger] a(e) == b(e) by {
                assert(one[0] == passthrough_extension());
            }
            assert(a =~= b);
        }
        InstancePlan { enabled: true, names: Some(kept) }
    }

    /// The instance that the next layer created with the result `r`, and what is remembered of
    /// it; `high` is what came of wrapping it.
    pub fn finish(enabled: bool, r: XrErr, high: XrResult<u64>) -> (out: XrResult<
        (u64, InstanceData),
    >)
        ensures
            match out {
                Ok((h, data)) => {
                    &&& r.code == SUCCESS
                    &&& high == XrResult::<u64>::Ok(h)
                    &&& data.is_passthrough_enabled == enabled
                    &&& data.instance_api_version@ == Map::<u64, ApiVersion>::empty()
                },
                Err(e) => if r.code != SUCCESS {
                    e == r
                } else {
                    high == XrResult::<u64>::Err(e)
                },
            },
    {
        if !r.is_success() {
            return Err(r);
        }
        match high {
            Ok(h) => Ok(
                (
                    h,
                    InstanceData {
                        is_passthrough_enabled: enabled,
                        instance_api_version: HashMap::new(),
                    },
                ),
            ),
            Err(e) => Err(e),
        }
    }
}

/// The next layer never hears of the passthrough extension, and hears of every other extension
/// that the application asked for.
pub proof fn law_passthrough_is_hidden(names: Seq<Seq<u8>>, name: Seq<u8>)
    ensures
        hidden(names).contains(name) <==> names.contains(name) && name
            != passthrough_extension(),
    decreases names.len(),
{
    reveal(Seq::filter);
    if names.len() > 0 {
        let short = names.drop_last();
        law_passthrough_is_hidden(short, name);
        if names.contains(name) {
            let k = choose|k: int| 0 <= k < names.len() && names[k] == name;
            if k < short.len() {
                assert(short[k] == name);
            }
        }
        if short.contains(name) {
            let k = choose|k: int| 0 <= k < short.len() && short[k] == name;
            assert(names[k] == name);
        }
        if name == names.last() {
            assert(names[names.len() - 1] == name);
        }
        let before = hidden(short);
        if before.contains(name) {
            let k = choose|k: int| 0 <= k < before.len() && before[k] == name;
            assert(hidden(names)[k] == name);
        }
        if names.last() != passthrough_extension() {
            assert(hidden(names)[before.len() as int] == names.last());
        }
        if hidden(names).contains(name) {
            let k = choose|k: int| 0 <= k < hidden(names).len() && hidden(names)[k] == name;
            if k < before.len() {
                assert(before[k] == name);
            }
        }
    }
}

/// Whether a Vulkan object may be created through the runtime: the instance is known and was
/// created with the extension for it.
pub fn check_vulkan_create(known: bool, has_vulkan_enable2: bool) -> (r: XrResult<()>)
    ensures
        r == (if !known {
            XrResult::<()>::Err(XrErr { code: ERROR_HANDLE_INVALID })
        } else if !has_vulkan_enable2 {
            Err(XrErr { code: ERROR_VALIDATION_FAILURE })
        } else {
            Ok(())
        }),
{
    if !known {
        Err(XrErr::new(ERROR_HANDLE_INVALID))
    } else if !has_vulkan_enable2 {
        Err(XrErr::new(ERROR_VALIDATION_FAILURE))
    } else {
        Ok(())
    }
}

/// What the runtime is to create a Vulkan object with in place of `requested`; `None` if it is
/// created as the application asked.
#[derive(Debug)]
pub struct VulkanCreatePlan {
    pub extensions: Option<Vec<Vec<u8>>>,
}

/// A Vulkan instance is created with the extensions that the layer requires among the others.
pub fn create_vulkan_instance(
    found: &Result<WithHookMut, RegisterationError>,
    has_vulkan_enable2: bool,
    requested: &[Vec<u8>],
) -> (r: XrResult<VulkanCreatePlan>)
    ensures
        match r {
            Ok(plan) => found is Ok && has_vulkan_enable2 && opt_names(plan.extensions)
                == merged_names(
                byte_names(requested@),
                crate::extensions::required_instance_names(),
            ),
            Err(e) => if found is Err {
                e.code == ERROR_HANDLE_INVALID
            } else {
                !has_vulkan_enable2 && e.code == ERROR_VALIDATION_FAILURE
            },
        },
{
    match check_vulkan_create(found.is_ok(), has_vulkan_enable2) {
        Ok(_) => (),
        Err(e) => return Err(e),
    }
    let required = crate::extensions::required_vk_instance_extensions();
    Ok(VulkanCreatePlan { extensions: merge_extensions(requested, required.as_slice()) })
}

/// A Vulkan device is created with the extensions that the layer requires among the others.
pub fn create_vulkan_device(
    found: &Result<WithHook, RegisterationError>,
    has_vulkan_enable2: bool,
    requested: &[Vec<u8>],
) -> (r: XrResult<VulkanCreatePlan>)
    ensures
        match r {
            Ok(plan) => found is Ok && has_vulkan_enable2 && opt_names(plan.extensions)
                == merged_names(
                byte_names(requested@),
                crate::extensions::required_device_names(),
            ),
            Err(e) => if found is Err {
                e.code == ERROR_HANDLE_INVALID
            } else {
                !has_vulkan_enable2 && e.code == ERROR_VALIDATION_FAILURE
            },
        },
{
    match check_vulkan_create(found.is_ok(), has_vulkan_enable2) {
        Ok(_) => (),
        Err(e) => return Err(e),
    }
    let required = crate::extensions::required_vk_device_extensions();
    Ok(VulkanCreatePlan { extensions: merge_extensions(requested, required.as_slice()) })
}

/// Remembers the API version of a Vulkan instance that was created. `raw_version` is the packed
/// version that the application asked for.
pub fn vulkan_instance_created(
    data: &mut InstanceData,
    ret: XrErr,
    vk_instance: u64,
    raw_version: u32,
) -> (r: XrErr)
    ensures
        r == ret,
        final(data).is_passthrough_enabled == old(data).is_passthrough_enabled,
        final(data).instance_api_version@ == (if ret.code == SUCCESS {
            old(data).instance_api_version@.insert(
                vk_instance,
                crate::version::unpacked(raw_version),
            )
        } else {
            old(data).instance_api_version@
        }),
{
    if ret.is_success() {
        data.instance_api_version.insert(vk_instance, ApiVersion::from_raw(raw_version));
    }
    ret
}

/// The blend mode in which nothing of the environment is seen.
pub const OPAQUE: i32 = 1;

/// The blend mode in which the environment is seen where the application draws nothing.
pub const ALPHA_BLEND: i32 = 3;

/// For how many blend modes there is room at the first attempt.
pub const BLEND_MODE_ROOM: u32 = 3;

/// What comes of a call that enumerates.
#[derive(Debug)]
pub enum EnumerateStep {
    /// Call again, with room for `capacity` items.
    Retry { capacity: u32 },
    /// The items.
    Got(Vec<i32>),
    Fail(XrErr),
}

/// The first of at most two calls that enumerate, with room for `room` items, is done. `size_out`
/// is the number of items that it gave, or for which it wants room.
pub fn enumerate_first(room: u32, ret: XrErr, size_out: u32, items: Vec<i32>) -> (r: EnumerateStep)
    requires
        ret.code == SUCCESS ==> size_out <= room && items@.len() == size_out,
    ensures
        match r {
            EnumerateStep::Retry { capacity } => ret.code == ERROR_SIZE_INSUFFICIENT && capacity
                == size_out,
            EnumerateStep::Got(got) => ret.code == SUCCESS && got@ == items@,
            EnumerateStep::Fail(e) => e == ret && ret.code != SUCCESS && ret.code
                != ERROR_SIZE_INSUFFICIENT,
        },
{
    if ret.is_success() {
        EnumerateStep::Got(items)
    } else if ret.code == ERROR_SIZE_INSUFFICIENT {
        EnumerateStep::Retry { capacity: size_out }
    } else {
        EnumerateStep::Fail(ret)
    }
}

/// The second call that enumerates is done.
pub fn enumerate_second(capacity: u32, ret: XrErr, size_out: u32, items: Vec<i32>) -> (r: XrResult<
    Vec<i32>,
>)
    requires
        ret.code == SUCCESS ==> size_out <= capacity && items@.len() == size_out,
    ensures
        match r {
            Ok(got) => ret.code == SUCCESS && got@ == items@,
            Err(e) => e == ret && ret.code != SUCCESS,
        },
{
    if ret.is_success() {
        Ok(items)
    } else {
        Err(ret)
    }
}

/// How an application that asks for the blend modes is answered.
#[derive(Debug)]
pub enum BlendAnswer {
    /// The runtime answers.
    Forward,
    /// The layer answers. `written` goes to the application's memory where it is there.
    Answer { result: XrErr, count: u32, written: Option<Vec<i32>> },
}

/// The blend modes that an application is offered: those of the runtime, and alpha blending.
pub open spec fn offered_modes(original: Seq<i32>) -> Seq<i32> {
    if original.contains(ALPHA_BLEND) {
        original
    } else {
        original.push(ALPHA_BLEND)
    }
}

/// The code that an application with room for `capacity` modes is answered with, if the layer
/// answers.
pub open spec fn mode_code(original: Seq<i32>, capacity: u32) -> i32 {
    if capacity == 0 || capacity >= offered_modes(original).len() {
        SUCCESS
    } else {
        ERROR_SIZE_INSUFFICIENT
    }
}

/// Answers an application that has room for `capacity` blend modes; `original` are the modes of
/// the runtime. An application without any room only wants to know how many there are.
pub fn enumerate_environment_blend_modes(original: &[i32], capacity: u32) -> (r: BlendAnswer)
    requires
        original@.len() < u32::MAX,
    ensures
        match r {
            BlendAnswer::Forward => original@.contains(ALPHA_BLEND),
            BlendAnswer::Answer { result, count, written } => {
                &&& !original@.contains(ALPHA_BLEND)
                &&& count == offered_modes(original@).len()
                &&& result.code == mode_code(original@, capacity)
                &&& written is Some <==> capacity >= count
                &&& written matches Some(modes) ==> modes@ == offered_modes(original@)
            },
        },
{
    if has_i32(original, ALPHA_BLEND) {
        return BlendAnswer::Forward;
    }
    let count: u32 = original.len() as u32 + 1;
    if capacity < count {
        let code: i32 = if capacity == 0 {
            SUCCESS
        } else {
            ERROR_SIZE_INSUFFICIENT
        };
        return BlendAnswer::Answer { result: XrErr::new(code), count, written: None };
    }
    let mut modes: Vec<i32> = Vec::new();
    let mut i: usize = 0;
    while i < original.len()
        invariant
            i <= original.len(),
            modes@ == original@.subrange(0, i as int),
        decreases original.len() - i,
    {
        modes.push(original[i]);
        i += 1;
        assert(modes@ =~= original@.subrange(0, i as int));
    }
    modes.push(ALPHA_BLEND);
    assert(modes@ =~= original@.push(ALPHA_BLEND));
    BlendAnswer::Answer { result: XrErr::new(SUCCESS), count, written: Some(modes) }
}

/// An application that asks for the number of modes is never refused, and neither is one that has
/// room for as many as it was told; with less room, but some, it is.
pub proof fn law_told_count_is_enough(original: Seq<i32>, capacity: u32)
    requires
        original.len() < u32::MAX,
    ensures
        mode_code(original, 0) == SUCCESS,
        mode_code(original, offered_modes(original).len() as u32) == SUCCESS,
        0 < capacity < offered_modes(original).len() ==> mode_code(original, capacity)
            == ERROR_SIZE_INSUFFICIENT,
{
}

/// Alpha blending is always offered, and so is every mode of the runtime, in its place.
pub proof fn law_alpha_blend_is_offered(original: Seq<i32>)
    ensures
        offered_modes(original).contains(ALPHA_BLEND),
        original.is_prefix_of(offered_modes(original)),
        forall|m: i32| #[trigger]
            offered_modes(original).contains(m) ==> original.contains(m) || m == ALPHA_BLEND,
{
    let offered = offered_modes(original);
    if !original.contains(ALPHA_BLEND) {
        assert(offered[original.len() as int] == ALPHA_BLEND);
    }
    assert forall|m: i32| #[trigger] offered.contains(m) implies original.contains(m) || m
        == ALPHA_BLEND by {
        let k = choose|k: int| 0 <= k < offered.len() && offered[k] == m;
        if k < original.len() {
            assert(original[k] == m);
        }
    }
    assert(original =~= offered.subrange(0, original.len() as int));
}

/// An application asks for passthrough exactly if the extension is among those that it asks for.
/// Only then the next layer gets other extensions: the same in their order, without that one.
pub proof fn law_passthrough_is_noticed(names: &[Vec<u8>], r: InstancePlan)
    requires
        call_ensures(InstanceFactory::plan, (names,), r),
    ensures
        passthrough_extension() == encode_utf8("XR_HTC_passthrough"@),
        r.enabled <==> exists|i: int|
            0 <= i < names@.len() && (#[trigger] names@[i])@ == encode_utf8(
                "XR_HTC_passthrough"@,
            ),
        r.names is Some <==> r.enabled,
        r.names matches Some(list) ==> byte_names(list@) == hidden(byte_names(names@)),
{
    let all = byte_names(names@);
    if r.enabled {
        let i = choose|i: int| 0 <= i < all.len() && all[i] == passthrough_extension();
        assert(names@[i]@ == passthrough_extension());
    }
    if exists|i: int|
        0 <= i < names@.len() && (#[trigger] names@[i])@ == encode_utf8("XR_HTC_passthrough"@) {
        let i = choose|i: int|
            0 <= i < names@.len() && (#[trigger] names@[i])@ == encode_utf8(
                "XR_HTC_passthrough"@,
            );
        assert(all[i] == passthrough_extension());
    }
}

/// Hiding an extension keeps the order of the others and how often each is named.
pub proof fn law_hiding_keeps_order(a: Seq<Seq<u8>>, b: Seq<Seq<u8>>, name: Seq<u8>)
    ensures
        hidden(a + b) == hidden(a) + hidden(b),
        name == passthrough_extension() ==> hidden(seq![name]) == Seq::<Seq<u8>>::empty(),
        name != passthrough_extension() ==> hidden(seq![name]) == seq![name],
    decreases b.len(),
{
    reveal(Seq::filter);
    let one = seq![name];
    assert(one.drop_last() =~= Seq::<Seq<u8>>::empty());
    assert(one.last() == name);
    assert(hidden(Seq::<Seq<u8>>::empty()) =~= Seq::<Seq<u8>>::empty());
    if name != passthrough_extension() {
        assert(hidden(one) =~= seq![name]);
    } else {
        assert(hidden(one) =~= hidden(Seq::<Seq<u8>>::empty()));
    }
    if b.len() == 0 {
        assert(a + b =~= a);
        assert(hidden(a) + hidden(b) =~= hidden(a));
    } else {
        law_hiding_keeps_order(a, b.drop_last(), name);
        assert((a + b).drop_last() =~= a + b.drop_last());
        assert((a + b).last() == b.last());
        assert(hidden(a + b) =~= hidden(a) + hidden(b));
    }
}

/// An instance is kept exactly if it was created and could be wrapped; the first error counts.
pub proof fn law_instance_is_kept(enabled: bool, ret: XrErr, high: XrResult<u64>, r: XrResult<
    (u64, InstanceData),
>)
    requires
        call_ensures(InstanceFactory::finish, (enabled, ret, high), r),
    ensures
        r is Ok <==> ret.code == 0 && high is Ok,
        r matches Ok((h, data)) ==> high == XrResult::<u64>::Ok(h) && data.is_passthrough_enabled
            == enabled && data.instance_api_version@.dom() == Set::<u64>::empty(),
        ret.code != 0 ==> (r matches Err(e) && e == ret),
        ret.code == 0 ==> (high matches Err(f) ==> (r matches Err(e) && e == f)),
{
    match r {
        Ok((_, data)) => {
            assert(data.instance_api_version@.dom() =~= Set::<u64>::empty());
        },
        Err(_) => {},
    }
}

/// A Vulkan object is created only for a known instance with the extension for it, and with all
/// that the layer requires.
pub proof fn law_vulkan_objects_are_planned(
    a: &Result<WithHookMut, RegisterationError>,
    b: &Result<WithHook, RegisterationError>,
    enabled: bool,
    requested: &[Vec<u8>],
    x: XrResult<VulkanCreatePlan>,
    y: XrResult<VulkanCreatePlan>,
)
    requires
        call_ensures(create_vulkan_instance, (a, enabled, requested), x),
        call_ensures(create_vulkan_device, (b, enabled, requested), y),
    ensures
        x is Ok <==> *a is Ok && enabled,
        y is Ok <==> *b is Ok && enabled,
        x matches Err(e) ==> e.code == (if *a is Err {
            -12int
        } else {
            -1
        }),
        y matches Err(e) ==> e.code == (if *b is Err {
            -12int
        } else {
            -1
        }),
        x matches Ok(plan) ==> opt_names(plan.extensions) == merged_names(
            byte_names(requested@),
            crate::extensions::required_instance_names(),
        ),
        y matches Ok(plan) ==> opt_names(plan.extensions) == merged_names(
            byte_names(requested@),
            crate::extensions::required_device_names(),
        ),
        forall|known: bool, r: XrResult<()>| #[trigger]
            call_ensures(check_vulkan_create, (known, enabled), r) ==> {
                &&& r is Ok <==> known && enabled
                &&& r matches Err(e) ==> e.code == (if known {
                    -1int
                } else {
                    -12
                })
            },
{
}

/// The version of a Vulkan instance is remembered exactly if it was created; the versions of the
/// others stay.
pub proof fn law_version_is_remembered()
    ensures
        forall|d: &mut InstanceData, ret: XrErr, vk: u64, raw: u32, r: XrErr| #[trigger]
            call_ensures(vulkan_instance_created, (d, ret, vk, raw), r) ==> {
                let before = (*d).instance_api_version@;
                let after = (*final(d)).instance_api_version@;
                &&& r == ret
                &&& (*final(d)).is_passthrough_enabled == (*d).is_passthrough_enabled
                &&& ret.code != 0 ==> after == before
                &&& ret.code == 0 ==> after.contains_key(vk) && after[vk]
                    == crate::version::unpacked(raw)
                &&& forall|other: u64|
                    other != vk ==> (#[trigger] after.contains_key(other) <==> before.contains_key(
                        other,
                    )) && (before.contains_key(other) ==> after[other] == before[other])
            },
{
}

/// The first call gives the items, asks for a second one with more room, or fails; the second
/// gives the items or fails.
pub proof fn law_items_are_enumerated(
    room: u32,
    ret: XrErr,
    size: u32,
    items: Vec<i32>,
    first: EnumerateStep,
    second: XrResult<Vec<i32>>,
)
    requires
        call_ensures(enumerate_first, (room, ret, size, items), first),
        call_ensures(enumerate_second, (room, ret, size, items), second),
    ensures
        ret.code == 0 ==> (first matches EnumerateStep::Got(got) && got@ == items@),
        ret.code == -11 ==> (first matches EnumerateStep::Retry { capacity } && capacity == size),
        ret.code != 0 && ret.code != -11 ==> (first matches EnumerateStep::Fail(e) && e == ret),
        ret.code == 0 ==> (second matches Ok(got) && got@ == items@),
        ret.code != 0 ==> (second matches Err(e) && e == ret),
{
}

/// An application is told of the runtime's blend modes and, behind them, of alpha blending, if
/// the runtime does not offer that itself; then the runtime answers.
pub proof fn law_blend_modes_are_answered(original: &[i32], capacity: u32, r: BlendAnswer)
    requires
        original@.len() < u32::MAX,
        call_ensures(enumerate_environment_blend_modes, (original, capacity), r),
    ensures
        r is Forward <==> exists|i: int| 0 <= i < original@.len() && #[trigger] original@[i] == 3,
        r matches BlendAnswer::Answer { result, count, written } ==> {
            &&& count == original@.len() + 1
            &&& written is Some <==> capacity > original@.len()
            &&& written matches Some(modes) ==> modes@ == original@ + seq![3i32]
            &&& capacity == 0 || capacity > original@.len() ==> result.code == 0
            &&& 0 < capacity <= original@.len() ==> result.code == -11
        },
{
    if original@.contains(ALPHA_BLEND) {
        let i = choose|i: int| 0 <= i < original@.len() && original@[i] == ALPHA_BLEND;
        assert(original@[i] == 3);
    }
    if exists|i: int| 0 <= i < original@.len() && #[trigger] original@[i] == 3 {
        let i = choose|i: int| 0 <= i < original@.len() && #[trigger] original@[i] == 3;
        assert(original@[i] == ALPHA_BLEND);
    }
    assert(original@.push(3i32) =~= original@ + seq![3i32]);
}

/// The versions that are remembered can be looked at.
pub proof fn law_versions_can_be_read(d: &InstanceData, r: &HashMap<u64, ApiVersion>)
    requires
        call_ensures(InstanceData::instance_api_version, (d,), r),
    ensures
        r@ == d.instance_api_version@,
{
}

} // verus!
