//! What the layer agrees on with the OpenXR loader.

use crate::registry::RegisterationError;
use crate::text::{c_text, str_eq, text_until_nul, texts};
use crate::xr_result::{
    XrErr, XrResult, ERROR_HANDLE_INVALID, ERROR_INITIALIZATION_FAILED, ERROR_VALIDATION_FAILURE,
};
use vstd::prelude::*;
use vstd::string::*;

verus! {

/// How a structure of the loader says what it is.
#[derive(Debug, Clone, Copy, PartialEq, Eq, Structural)]
pub struct StructHeader {
    pub ty: i32,
    pub struct_version: u32,
    pub struct_size: usize,
}

/// What the loader offers. Versions are packed into one number so that a later version is a
/// greater number.
#[derive(Debug, Clone, Copy, PartialEq, Eq, Structural)]
pub struct LoaderInfo {
    pub header: StructHeader,
    pub min_api_version: u64,
    pub max_api_version: u64,
}

/// What the layer answers. Functions are given by their addresses.
#[derive(Debug, Clone, Copy, PartialEq, Eq, Structural)]
pub struct ApiLayerRequest {
    pub header: StructHeader,
    pub layer_interface_version: u32,
    pub layer_api_version: u64,
    pub get_instance_proc_addr: Option<u64>,
    pub create_api_layer_instance: Option<u64>,
}

/// What the layer was built for.
#[derive(Debug, Clone, Copy, PartialEq, Eq, Structural)]
pub struct LayerInterface {
    pub info_header: StructHeader,
    pub request_header: StructHeader,
    pub api_version: u64,
    pub interface_version: u32,
    pub get_instance_proc_addr: u64,
    pub create_api_layer_instance: u64,
}

/// The loader and the layer speak of the same structures, and the layer's version is one that
/// the loader offers.
pub open spec fn compatible(
    layer: LayerInterface,
    info: LoaderInfo,
    request: ApiLayerRequest,
) -> bool {
    &&& info.header == layer.info_header
    &&& request.header == layer.request_header
    &&& info.min_api_version <= layer.api_version <= info.max_api_version
}

/// Fills in the request if loader and layer are compatible, and leaves it alone if not.
pub fn negotiate_loader_api_layer_interface_impl(
    layer: &LayerInterface,
    loader_info: &LoaderInfo,
    api_layer_request: &mut ApiLayerRequest,
) -> (r: XrResult<()>)
    ensures
        compatible(*layer, *loader_info, *old(api_layer_request)) ==> r == XrResult::<()>::Ok(())
            && *final(api_layer_request) == (ApiLayerRequest {
            header: old(api_layer_request).header,
            layer_interface_version: layer.interface_version,
            layer_api_version: layer.api_version,
            get_instance_proc_addr: Some(layer.get_instance_proc_addr),
            create_api_layer_instance: Some(layer.create_api_layer_instance),
        }),
        !compatible(*layer, *loader_info, *old(api_layer_request)) ==> r == XrResult::<()>::Err(
            XrErr { code: ERROR_INITIALIZATION_FAILED },
        ) && *final(api_layer_request) == *old(api_layer_request),
{
    if loader_info.header != layer.info_header {
        return Err(XrErr::new(ERROR_INITIALIZATION_FAILED));
    }
    if api_layer_request.header != layer.request_header {
        return Err(XrErr::new(ERROR_INITIALIZATION_FAILED));
    }
    if layer.api_version > loader_info.max_api_version || layer.api_version
        < loader_info.min_api_version {
        return Err(XrErr::new(ERROR_INITIALIZATION_FAILED));
    }
    api_layer_request.layer_interface_version = layer.interface_version;
    api_layer_request.layer_api_version = layer.api_version;
    api_layer_request.get_instance_proc_addr = Some(layer.get_instance_proc_addr);
    api_layer_request.create_api_layer_instance = Some(layer.create_api_layer_instance);
    Ok(())
}

/// The answer to a request for a function.
#[derive(Debug, Clone, Copy, PartialEq, Eq, Structural)]
pub enum ProcAnswer {
    /// The layer has a function of its own: its place in the table.
    Overridden(usize),
    /// The next layer is asked.
    Forward,
    Fail(XrErr),
}

/// The table holds `name` first at place `i`.
pub open spec fn first_at(table: Seq<Seq<char>>, name: Seq<char>, i: int) -> bool {
    0 <= i < table.len() && table[i] == name && forall|j: int| 0 <= j < i ==> table[j] != name
}

/// Answers a request for a function: `instance` is what was found of the instance, and `name` is
/// the zero-terminated name of the function.
pub fn get_instance_proc_addr(
    instance: &Result<u64, RegisterationError>,
    name: &[u8],
    overrides: &[String],
) -> (r: ProcAnswer)
    ensures
        instance is Err ==> r == ProcAnswer::Fail(XrErr { code: ERROR_HANDLE_INVALID }),
        instance is Ok && c_text(name@) is None ==> r == ProcAnswer::Fail(
            XrErr { code: ERROR_VALIDATION_FAILURE },
        ),
        instance is Ok && c_text(name@) is Some ==> match r {
            ProcAnswer::Overridden(i) => first_at(
                texts(overrides@),
                c_text(name@)->Some_0,
                i as int,
            ),
            ProcAnswer::Forward => !texts(overrides@).contains(c_text(name@)->Some_0),
            ProcAnswer::Fail(_) => false,
        },
{
    if instance.is_err() {
        return ProcAnswer::Fail(XrErr::new(ERROR_HANDLE_INVALID));
    }
    let wanted = match text_until_nul(name) {
        Some(text) => text,
        None => return ProcAnswer::Fail(XrErr::new(ERROR_VALIDATION_FAILURE)),
    };
    let ghost table = texts(overrides@);
    let mut i: usize = 0;
    while i < overrides.len()
        invariant
            i <= overrides.len(),
            instance is Ok,
            c_text(name@) == Some(wanted@),
            table == texts(overrides@),
            forall|j: int| 0 <= j < i ==> table[j] != wanted@,
        decreases overrides.len() - i,
    {
        if str_eq(overrides[i].as_str(), wanted.as_str()) {
            assert(table[i as int] == wanted@);
            return ProcAnswer::Overridden(i);
        }
        i += 1;
    }
    ProcAnswer::Forward
}

/// With matching headers the negotiation succeeds for every version from the loader's least to
/// its greatest, both of them and all between, and for no other. Then the request says what the
/// layer was built for, and its header stays. Else it fails, and the request stays as it was.
pub proof fn law_negotiation_succeeds_within_the_range(layer: &LayerInterface, info: &LoaderInfo)
    ensures
        forall|request: &mut ApiLayerRequest, r: XrResult<()>| #[trigger]
            call_ensures(
                negotiate_loader_api_layer_interface_impl,
                (layer, info, request),
                r,
            ) ==> {
                let fits = info.header.ty == layer.info_header.ty && info.header.struct_version
                    == layer.info_header.struct_version && info.header.struct_size
                    == layer.info_header.struct_size && request.header.ty
                    == layer.request_header.ty && request.header.struct_version
                    == layer.request_header.struct_version && request.header.struct_size
                    == layer.request_header.struct_size && info.min_api_version
                    <= layer.api_version && layer.api_version <= info.max_api_version;
                &&& r is Ok <==> fits
                &&& r matches Err(e) ==> e.code == -6 && *final(request) == *request
                &&& r is Ok ==> final(request).header == request.header
                &&& r is Ok ==> final(request).layer_interface_version == layer.interface_version
                &&& r is Ok ==> final(request).layer_api_version == layer.api_version
                &&& r is Ok ==> final(request).get_instance_proc_addr == Some(
                    layer.get_instance_proc_addr,
                )
                &&& r is Ok ==> final(request).create_api_layer_instance == Some(
                    layer.create_api_layer_instance,
                )
            },
{
}

/// A loader that offers more never turns a success into a failure.
pub proof fn law_wider_range_never_fails(
    layer: LayerInterface,
    info: LoaderInfo,
    wider: LoaderInfo,
    request: ApiLayerRequest,
)
    requires
        wider.header == info.header,
        wider.min_api_version <= info.min_api_version,
        info.max_api_version <= wider.max_api_version,
        compatible(layer, info, request),
    ensures
        compatible(layer, wider, request),
        forall|v: u64|
            info.min_api_version <= v <= info.max_api_version ==> #[trigger] compatible(
                LayerInterface { api_version: v, ..layer },
                info,
                request,
            ),
{
}

/// A function is answered with the layer's own exactly if the table names it, with the first of
/// that name; any other readable name is passed on. Nothing is found for an unknown instance.
pub proof fn law_function_is_found_by_name(
    instance: &Result<u64, RegisterationError>,
    name: &[u8],
    overrides: &[String],
    r: ProcAnswer,
)
    requires
        call_ensures(get_instance_proc_addr, (instance, name, overrides), r),
    ensures
        *instance is Err <==> r == ProcAnswer::Fail(XrErr { code: -12i32 }),
        *instance is Ok && c_text(name@) is None <==> r == ProcAnswer::Fail(XrErr { code: -1i32 }),
        r matches ProcAnswer::Overridden(i) ==> i < overrides@.len() && c_text(name@) == Some(
            overrides@[i as int]@,
        ) && forall|j: int| 0 <= j < i ==> c_text(name@) != Some((#[trigger] overrides@[j])@),
        r is Forward ==> c_text(name@) is Some && forall|j: int|
            0 <= j < overrides@.len() ==> c_text(name@) != Some((#[trigger] overrides@[j])@),
{
    let table = texts(overrides@);
    assert(table.len() == overrides@.len());
    assert forall|j: int| 0 <= j < overrides@.len() implies table[j] == (
    #[trigger] overrides@[j])@ by {}
    if r is Forward {
        assert forall|j: int| 0 <= j < overrides@.len() implies c_text(name@) != Some(
            (#[trigger] overrides@[j])@,
        ) by {
            assert(table[j] == overrides@[j]@);
            assert(table.contains(table[j]));
        }
    }
}

} // verus!
