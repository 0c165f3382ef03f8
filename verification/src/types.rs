//! What OpenXR objects are created from, and the high-level objects that wrap their handles.

use crate::registry::{chain_ends, instance_of, lookup_result, RegisterationError, Registry};
use crate::text::{
    byte_names, bytes_until_nul, c_string, c_text, copy_bytes, text_until_nul,
};
use crate::xr_result::{XrErr, XrResult, ERROR_HANDLE_INVALID, ERROR_VALIDATION_FAILURE};
use vstd::prelude::*;

verus! {

/// An application's description of itself, with names in zero-terminated buffers.
#[derive(Debug)]
pub struct RawApplicationInfo {
    pub application_name: Vec<u8>,
    pub application_version: u32,
    pub engine_name: Vec<u8>,
    pub engine_version: u32,
    pub api_version: u64,
}

/// An application's description of itself.
#[derive(Debug)]
pub struct ApplicationInfo {
    pub application_name: Vec<u8>,
    pub application_version: u32,
    pub engine_name: Vec<u8>,
    pub engine_version: u32,
    pub api_version: u64,
}

impl ApplicationInfo {
    /// The description that `raw` holds; both its names end in a zero byte.
    pub open spec fn read_from(self, raw: RawApplicationInfo) -> bool {
        &&& c_string(raw.application_name@) == Some(self.application_name@)
        &&& c_string(raw.engine_name@) == Some(self.engine_name@)
        &&& self.application_version == raw.application_version
        &&& self.engine_version == raw.engine_version
        &&& self.api_version == raw.api_version
    }

    pub fn from_raw(raw: &RawApplicationInfo) -> (r: XrResult<ApplicationInfo>)
        ensures
            match r {
                Ok(info) => info.read_from(*raw),
                Err(e) => e.code == ERROR_VALIDATION_FAILURE && (c_string(
                    raw.application_name@,
                ) is None || c_string(raw.engine_name@) is None),
            },
    {
        let application_name = match bytes_until_nul(raw.application_name.as_slice()) {
            Some(name) => name,
            None => return Err(XrErr::new(ERROR_VALIDATION_FAILURE)),
        };
        let engine_name = match bytes_until_nul(raw.engine_name.as_slice()) {
            Some(name) => name,
            None => return Err(XrErr::new(ERROR_VALIDATION_FAILURE)),
        };
        Ok(
            ApplicationInfo {
                application_name,
                application_version: raw.application_version,
                engine_name,
                engine_version: raw.engine_version,
                api_version: raw.api_version,
            },
        )
    }
}

/// What an instance is to be created with. Extensions and layers are given by their names,
/// without the zero byte.
#[derive(Debug)]
pub struct RawInstanceCreateInfo {
    pub application_info: RawApplicationInfo,
    pub enabled_extension_names: Vec<Vec<u8>>,
    pub enabled_api_layer_names: Vec<Vec<u8>>,
}

/// What an instance was created with.
#[derive(Debug)]
pub struct InstanceCreateInfo {
    pub application_info: ApplicationInfo,
    pub required_extensions: Vec<Vec<u8>>,
    pub layers: Vec<Vec<u8>>,
}

/// Copies a list of byte strings.
pub fn copy_names(list: &[Vec<u8>]) -> (r: Vec<Vec<u8>>)
    ensures
        byte_names(r@) == byte_names(list@),
{
    let mut out: Vec<Vec<u8>> = Vec::new();
    let mut i: usize = 0;
    while i < list.len()
        invariant
            i <= list.len(),
            out@.len() == i,
            forall|j: int| 0 <= j < i ==> (#[trigger] out@[j])@ == list@[j]@,
        decreases list.len() - i,
    {
        out.push(copy_bytes(list[i].as_slice()));
        i += 1;
    }
    assert(byte_names(out@) =~= byte_names(list@));
    out
}

impl InstanceCreateInfo {
    pub fn from_raw(raw: &RawInstanceCreateInfo) -> (r: XrResult<InstanceCreateInfo>)
        ensures
            match r {
                Ok(info) => {
                    &&& info.application_info.read_from(raw.application_info)
                    &&& byte_names(info.required_extensions@) == byte_names(
                        raw.enabled_extension_names@,
                    )
                    &&& byte_names(info.layers@) == byte_names(raw.enabled_api_layer_names@)
                },
                Err(e) => e.code == ERROR_VALIDATION_FAILURE && (c_string(
                    raw.application_info.application_name@,
                ) is None || c_string(raw.application_info.engine_name@) is None),
            },
    {
        match ApplicationInfo::from_raw(&raw.application_info) {
            Ok(application_info) => Ok(
                InstanceCreateInfo {
                    application_info,
                    required_extensions: copy_names(raw.enabled_extension_names.as_slice()),
                    layers: copy_names(raw.enabled_api_layer_names.as_slice()),
                },
            ),
            Err(e) => Err(e),
        }
    }
}

/// Collecting names into an `openxr::ExtensionSet`, `ExtensionSet::intersection`, and
/// `ExtensionSet::names`: the names that stand in both lists, each of them once, in no order that
/// is promised.
#[verifier::external_body]
fn common_names(a: &[Vec<u8>], b: &[Vec<u8>]) -> (r: Vec<Vec<u8>>)
    ensures
        byte_names(r@).no_duplicates(),
        byte_names(r@).to_set() == byte_names(a@).to_set().intersect(byte_names(b@).to_set()),
{
    let a: openxr::ExtensionSet = a.iter().map(|n| n.as_slice()).collect();
    let b: openxr::ExtensionSet = b.iter().map(|n| n.as_slice()).collect();
    a.intersection(&b).names().into_iter().map(|n| n.to_vec()).collect()
}

/// A handle that can be created, and what it is created from.
pub trait Create {
    type Args: Copy + Clone;
}

/// The handle of an instance.
#[derive(Debug, Clone, Copy, PartialEq, Eq, Structural)]
pub struct InstanceHandle {
    pub raw: u64,
}

/// Which of the things that an instance is created from are missing.
#[derive(Debug, Clone, Copy, PartialEq, Eq, Structural)]
pub struct InstanceArgs {
    pub info_is_null: bool,
    pub api_layer_info_is_null: bool,
    pub instance_is_null: bool,
}

impl Create for InstanceHandle {
    type Args = InstanceArgs;
}

impl InstanceHandle {
    /// Whether the instance can be wrapped at all: nothing that it is created from is missing.
    pub fn check_args(&self, args: &InstanceArgs) -> (r: XrResult<()>)
        ensures
            r == (if args.info_is_null || args.api_layer_info_is_null || args.instance_is_null {
                XrResult::<()>::Err(XrErr { code: ERROR_VALIDATION_FAILURE })
            } else {
                Ok(())
            }),
    {
        if args.info_is_null || args.api_layer_info_is_null || args.instance_is_null {
            Err(XrErr::new(ERROR_VALIDATION_FAILURE))
        } else {
            Ok(())
        }
    }
}

/// Wraps an instance that was just created: its functions were loaded, and it was wrapped, or not.
pub fn instance_into_high(
    loaded: XrResult<()>,
    wrapped: XrResult<u64>,
    raw: &RawInstanceCreateInfo,
) -> (r: XrResult<(u64, InstanceCreateInfo)>)
    ensures
        match (loaded, wrapped) {
            (Err(e), _) => r == XrResult::<(u64, InstanceCreateInfo)>::Err(e),
            (Ok(_), Err(e)) => r == XrResult::<(u64, InstanceCreateInfo)>::Err(e),
            (Ok(_), Ok(high)) => match r {
                Ok((h, info)) => {
                    &&& h == high
                    &&& info.application_info.read_from(raw.application_info)
                    &&& byte_names(info.required_extensions@) == byte_names(
                        raw.enabled_extension_names@,
                    )
                    &&& byte_names(info.layers@) == byte_names(raw.enabled_api_layer_names@)
                },
                Err(e) => e.code == ERROR_VALIDATION_FAILURE && (c_string(
                    raw.application_info.application_name@,
                ) is None || c_string(raw.application_info.engine_name@) is None),
            },
        },
{
    match loaded {
        Err(e) => return Err(e),
        Ok(_) => (),
    }
    let high: u64 = match wrapped {
        Err(e) => return Err(e),
        Ok(high) => high,
    };
    match InstanceCreateInfo::from_raw(raw) {
        Ok(info) => Ok((high, info)),
        Err(e) => Err(e),
    }
}

/// `names` holds exactly what both lists hold.
pub open spec fn common_to(a: Seq<Seq<u8>>, b: Seq<Seq<u8>>, names: Seq<Seq<u8>>) -> bool {
    forall|n: Seq<u8>| #[trigger] names.contains(n) <==> a.contains(n) && b.contains(n)
}

/// The extensions whose functions are loaded for an instance. Since the instance was created, a
/// required extension that is not supported is handled by some other layer, and is left out.
pub fn extensions_to_load(required: &[Vec<u8>], supported: &[Vec<u8>]) -> (r: Vec<Vec<u8>>)
    ensures
        byte_names(r@).no_duplicates(),
        common_to(byte_names(required@), byte_names(supported@), byte_names(r@)),
{
    let r = common_names(required, supported);
    proof {
        let names = byte_names(r@);
        let a = byte_names(required@);
        let b = byte_names(supported@);
        assert forall|n: Seq<u8>| #[trigger] names.contains(n) <==> a.contains(n) && b.contains(
            n,
        ) by {
            assert(names.to_set().contains(n) <==> a.to_set().contains(n) && b.to_set().contains(
                n,
            ));
        }
    }
    r
}

/// The objects that a session renders with.
#[derive(Debug, Clone, Copy, PartialEq, Eq, Structural)]
pub struct VulkanBinding {
    pub instance: u64,
    pub physical_device: u64,
    pub device: u64,
    pub queue_family_index: u32,
    pub queue_index: u32,
}

#[derive(Debug, Clone, Copy, PartialEq, Eq, Structural)]
pub struct XlibBinding {
    pub x_display: u64,
    pub visualid: u32,
    pub glx_fb_config: u64,
    pub glx_drawable: u64,
    pub glx_context: u64,
}

#[derive(Debug, Clone, Copy, PartialEq, Eq, Structural)]
pub struct XcbBinding {
    pub connection: u64,
    pub screen_number: u32,
    pub fbconfigid: u32,
    pub visualid: u32,
    pub glx_drawable: u32,
    pub glx_context: u32,
}

#[derive(Debug, Clone, Copy, PartialEq, Eq, Structural)]
pub struct WaylandBinding {
    pub display: u64,
}

/// How a session renders.
#[allow(inconsistent_fields)]
#[derive(Debug, Clone, Copy, PartialEq, Eq, Structural)]
pub enum GraphicsBinding {
    Vulkan(VulkanBinding),
    GlXlib {
        glx_fb_config: u64,
        glx_drawable: u64,
        glx_context: u64,
        x_display: u64,
        visualid: u32,
    },
    GlXcb {
        connection: u64,
        screen_number: u32,
        fbconfigid: u32,
        visualid: u32,
        glx_drawable: u32,
        glx_context: u32,
    },
    GlWayland { display: u64 },
}

impl GraphicsBinding {
    pub fn from_raw_vulkan(raw: &VulkanBinding) -> (r: GraphicsBinding)
        ensures
            r == GraphicsBinding::Vulkan(*raw),
    {
        GraphicsBinding::Vulkan(*raw)
    }

    pub open spec fn of_xcb(raw: XcbBinding) -> GraphicsBinding {
        GraphicsBinding::GlXcb {
            connection: raw.connection,
            screen_number: raw.screen_number,
            fbconfigid: raw.fbconfigid,
            visualid: raw.visualid,
            glx_drawable: raw.glx_drawable,
            glx_context: raw.glx_context,
        }
    }

    pub fn from_raw_gl_xcb(raw: &XcbBinding) -> (r: GraphicsBinding)
        ensures
            r == GraphicsBinding::of_xcb(*raw),
    {
        GraphicsBinding::GlXcb {
            connection: raw.connection,
            screen_number: raw.screen_number,
            fbconfigid: raw.fbconfigid,
            visualid: raw.visualid,
            glx_drawable: raw.glx_drawable,
            glx_context: raw.glx_context,
        }
    }

    pub open spec fn of_xlib(raw: XlibBinding) -> GraphicsBinding {
        GraphicsBinding::GlXlib {
            glx_fb_config: raw.glx_fb_config,
            glx_drawable: raw.glx_drawable,
            glx_context: raw.glx_context,
            x_display: raw.x_display,
            visualid: raw.visualid,
        }
    }

    pub fn from_raw_gl_xlib(raw: &XlibBinding) -> (r: GraphicsBinding)
        ensures
            r == GraphicsBinding::of_xlib(*raw),
    {
        GraphicsBinding::GlXlib {
            glx_fb_config: raw.glx_fb_config,
            glx_drawable: raw.glx_drawable,
            glx_context: raw.glx_context,
            x_display: raw.x_display,
            visualid: raw.visualid,
        }
    }

    pub fn from_raw_gl_wayland(raw: &WaylandBinding) -> (r: GraphicsBinding)
        ensures
            r == (GraphicsBinding::GlWayland { display: raw.display }),
    {
        GraphicsBinding::GlWayland { display: raw.display }
    }
}

/// A structure in the chain of structures that a session is created from.
#[derive(Debug, Clone, Copy, PartialEq, Eq, Structural)]
pub enum ChainLink {
    Vulkan(VulkanBinding),
    GlXlib(XlibBinding),
    GlXcb(XcbBinding),
    GlWayland(WaylandBinding),
    /// Any other structure; its type.
    Other(i32),
}

/// What a session is to be created with: the create info and all that is chained to it.
#[derive(Debug)]
pub struct RawSessionCreateInfo {
    pub system_id: u64,
    pub chain: Vec<ChainLink>,
}

/// What a session was created with. A session without a known graphics binding is not handled.
#[derive(Debug)]
pub struct SessionCreateInfo {
    pub system_id: u64,
    pub graphics_binding: Option<GraphicsBinding>,
}

/// The graphics binding that a structure holds.
pub open spec fn binding_in(link: ChainLink) -> Option<GraphicsBinding> {
    match link {
        ChainLink::Vulkan(raw) => Some(GraphicsBinding::Vulkan(raw)),
        ChainLink::GlXlib(raw) => Some(GraphicsBinding::of_xlib(raw)),
        ChainLink::GlXcb(raw) => Some(GraphicsBinding::of_xcb(raw)),
        ChainLink::GlWayland(raw) => Some(GraphicsBinding::GlWayland { display: raw.display }),
        ChainLink::Other(_) => None,
    }
}

/// The first graphics binding of a chain.
pub open spec fn first_binding(chain: Seq<ChainLink>) -> Option<GraphicsBinding>
    decreases chain.len(),
{
    if chain.len() == 0 {
        None
    } else if binding_in(chain[0]) is Some {
        binding_in(chain[0])
    } else {
        first_binding(chain.subrange(1, chain.len() as int))
    }
}

impl SessionCreateInfo {
    pub fn from_raw(raw: &RawSessionCreateInfo) -> (r: SessionCreateInfo)
        ensures
            r.system_id == raw.system_id,
            r.graphics_binding == first_binding(raw.chain@),
    {
        let ghost chain = raw.chain@;
        let mut i: usize = 0;
        let mut graphics_binding: Option<GraphicsBinding> = None;
        assert(chain.subrange(0, chain.len() as int) =~= chain);
        while i < raw.chain.len() && graphics_binding.is_none()
            invariant
                i <= raw.chain.len(),
                chain == raw.chain@,
                graphics_binding is None ==> first_binding(chain) == first_binding(
                    chain.subrange(i as int, chain.len() as int),
                ),
                graphics_binding is Some ==> first_binding(chain) == graphics_binding,
            decreases raw.chain.len() - i,
        {
            let ghost rest = chain.subrange(i as int, chain.len() as int);
            assert(rest[0] == chain[i as int]);
            assert(rest.subrange(1, rest.len() as int) =~= chain.subrange(
                i + 1,
                chain.len() as int,
            ));
            graphics_binding = match &raw.chain[i] {
                ChainLink::Vulkan(raw) => Some(GraphicsBinding::from_raw_vulkan(raw)),
                ChainLink::GlXlib(raw) => Some(GraphicsBinding::from_raw_gl_xlib(raw)),
                ChainLink::GlXcb(raw) => Some(GraphicsBinding::from_raw_gl_xcb(raw)),
                ChainLink::GlWayland(raw) => Some(GraphicsBinding::from_raw_gl_wayland(raw)),
                ChainLink::Other(_) => None,
            };
            i += 1;
        }
        SessionCreateInfo { system_id: raw.system_id, graphics_binding }
    }
}

/// A session by what it renders with; each has its handle.
#[derive(Debug, Clone, Copy, PartialEq, Eq, Structural)]
pub enum AnySession {
    Vulkan(u64),
    Gl(u64),
    Unhandled(u64),
}

/// A swapchain by what its session renders with; each has its handle.
#[derive(Debug, Clone, Copy, PartialEq, Eq, Structural)]
pub enum AnySwapchain {
    Vulkan(u64),
    Gl(u64),
    Unhandled(u64),
}

/// The instance, if it is registered, that has to destroy a handle that nothing else wraps.
pub open spec fn destroyer_of(
    registry: &Registry,
    raw: u64,
    high_type: u64,
    target: &'static str,
) -> Option<u64> {
    match instance_of(registry@.owner, raw) {
        Some(instance) => match lookup_result(
            instance,
            registry@.high_entry(instance),
            high_type,
            target,
        ) {
            Ok(high) => Some(high),
            Err(_) => None,
        },
        None => None,
    }
}

fn find_destroyer(registry: &Registry, raw: u64, high_type: u64, target: &'static str) -> (r:
    Option<u64>)
    requires
        chain_ends(registry@.owner, raw),
    ensures
        r == destroyer_of(registry, raw, high_type, target),
{
    match registry.find_instance(raw) {
        Ok(instance) => match registry.registered(instance, high_type, target) {
            Ok(high) => Some(high),
            Err(_) => None,
        },
        Err(_) => None,
    }
}

impl AnySession {
    pub open spec fn handle(self) -> u64 {
        match self {
            AnySession::Vulkan(h) => h,
            AnySession::Gl(h) => h,
            AnySession::Unhandled(h) => h,
        }
    }

    pub fn as_handle(&self) -> (r: u64)
        ensures
            r == self.handle(),
    {
        match *self {
            AnySession::Vulkan(h) => h,
            AnySession::Gl(h) => h,
            AnySession::Unhandled(h) => h,
        }
    }

    /// Which instance has to destroy the session when it is dropped. A session that is wrapped
    /// destroys itself; one whose instance is gone is left alone.
    pub fn drop_target(&self, registry: &Registry, high_type: u64, target: &'static str) -> (r:
        Option<u64>)
        requires
            *self is Unhandled ==> chain_ends(registry@.owner, self.handle()),
        ensures
            r == (if *self is Unhandled {
                destroyer_of(registry, self.handle(), high_type, target)
            } else {
                None
            }),
    {
        match *self {
            AnySession::Unhandled(raw) => find_destroyer(registry, raw, high_type, target),
            _ => None,
        }
    }

    /// What the session of a handle is, by the graphics binding that it was created with.
    pub open spec fn of_binding(handle: u64, binding: Option<GraphicsBinding>) -> AnySession {
        match binding {
            Some(GraphicsBinding::Vulkan(_)) => AnySession::Vulkan(handle),
            Some(_) => AnySession::Gl(handle),
            None => AnySession::Unhandled(handle),
        }
    }

    /// Wraps a session that was just created; `instance` is what was found of its instance.
    pub fn into_high(
        handle: u64,
        instance: &Result<u64, RegisterationError>,
        raw: &RawSessionCreateInfo,
    ) -> (r: XrResult<(AnySession, SessionCreateInfo)>)
        ensures
            match r {
                Ok((session, info)) => {
                    &&& instance is Ok
                    &&& info.system_id == raw.system_id
                    &&& info.graphics_binding == first_binding(raw.chain@)
                    &&& session == AnySession::of_binding(handle, first_binding(raw.chain@))
                },
                Err(e) => instance is Err && e.code == ERROR_HANDLE_INVALID,
            },
    {
        let info = SessionCreateInfo::from_raw(raw);
        if instance.is_err() {
            return Err(XrErr::new(ERROR_HANDLE_INVALID));
        }
        let session = match &info.graphics_binding {
            Some(GraphicsBinding::Vulkan(_)) => AnySession::Vulkan(handle),
            Some(_) => AnySession::Gl(handle),
            None => AnySession::Unhandled(handle),
        };
        Ok((session, info))
    }
}

impl AnySwapchain {
    pub open spec fn handle(self) -> u64 {
        match self {
            AnySwapchain::Vulkan(h) => h,
            AnySwapchain::Gl(h) => h,
            AnySwapchain::Unhandled(h) => h,
        }
    }

    pub fn as_handle(&self) -> (r: u64)
        ensures
            r == self.handle(),
    {
        match *self {
            AnySwapchain::Vulkan(h) => h,
            AnySwapchain::Gl(h) => h,
            AnySwapchain::Unhandled(h) => h,
        }
    }

    /// Which instance has to destroy the swapchain when it is dropped.
    pub fn drop_target(&self, registry: &Registry, high_type: u64, target: &'static str) -> (r:
        Option<u64>)
        requires
            *self is Unhandled ==> chain_ends(registry@.owner, self.handle()),
        ensures
            r == (if *self is Unhandled {
                destroyer_of(registry, self.handle(), high_type, target)
            } else {
                None
            }),
    {
        match *self {
            AnySwapchain::Unhandled(raw) => find_destroyer(registry, raw, high_type, target),
            _ => None,
        }
    }

    /// What the swapchain of a handle is, by the session that it was created from.
    pub open spec fn of_session(handle: u64, session: AnySession) -> AnySwapchain {
        match session {
            AnySession::Vulkan(_) => AnySwapchain::Vulkan(handle),
            AnySession::Gl(_) => AnySwapchain::Gl(handle),
            AnySession::Unhandled(_) => AnySwapchain::Unhandled(handle),
        }
    }

    /// Wraps a swapchain that was just created; `session` is what was found of its session.
    pub fn into_high(handle: u64, session: &Result<AnySession, RegisterationError>) -> (r: XrResult<
        AnySwapchain,
    >)
        ensures
            r == (match *session {
                Ok(s) => XrResult::<AnySwapchain>::Ok(AnySwapchain::of_session(handle, s)),
                Err(_) => Err(XrErr { code: ERROR_HANDLE_INVALID }),
            }),
    {
        match session {
            Ok(AnySession::Vulkan(_)) => Ok(AnySwapchain::Vulkan(handle)),
            Ok(AnySession::Gl(_)) => Ok(AnySwapchain::Gl(handle)),
            Ok(AnySession::Unhandled(_)) => Ok(AnySwapchain::Unhandled(handle)),
            Err(_) => Err(XrErr::new(ERROR_HANDLE_INVALID)),
        }
    }
}

/// What an action set is to be created with, with names in zero-terminated buffers.
#[derive(Debug)]
pub struct RawActionSetCreateInfo {
    pub action_set_name: Vec<u8>,
    pub localized_action_set_name: Vec<u8>,
    pub priority: u32,
}

/// What an action set was created with.
#[derive(Debug)]
pub struct ActionSetCreateInfo {
    pub action_set_name: String,
    pub localized_action_set_name: String,
    pub priority: u32,
}

impl ActionSetCreateInfo {
    /// Both names have to end in a zero byte and to be UTF-8.
    pub fn from_raw(raw: &RawActionSetCreateInfo) -> (r: XrResult<ActionSetCreateInfo>)
        ensures
            match r {
                Ok(info) => {
                    &&& c_text(raw.action_set_name@) == Some(info.action_set_name@)
                    &&& c_text(raw.localized_action_set_name@) == Some(
                        info.localized_action_set_name@,
                    )
                    &&& info.priority == raw.priority
                },
                Err(e) => e.code == ERROR_VALIDATION_FAILURE && (c_text(
                    raw.action_set_name@,
                ) is None || c_text(raw.localized_action_set_name@) is None),
            },
    {
        let action_set_name = match text_until_nul(raw.action_set_name.as_slice()) {
            Some(name) => name,
            None => return Err(XrErr::new(ERROR_VALIDATION_FAILURE)),
        };
        let localized_action_set_name = match text_until_nul(
            raw.localized_action_set_name.as_slice(),
        ) {
            Some(name) => name,
            None => return Err(XrErr::new(ERROR_VALIDATION_FAILURE)),
        };
        Ok(
            ActionSetCreateInfo {
                action_set_name,
                localized_action_set_name,
                priority: raw.priority,
            },
        )
    }

    /// Wraps an action set that was just created; `instance` is what was found of its instance.
    pub fn into_high(
        instance: &Result<u64, RegisterationError>,
        raw: &RawActionSetCreateInfo,
    ) -> (r: XrResult<ActionSetCreateInfo>)
        ensures
            instance is Err ==> (r matches Err(e) && e.code == ERROR_HANDLE_INVALID),
            instance is Ok ==> match r {
                Ok(info) => {
                    &&& c_text(raw.action_set_name@) == Some(info.action_set_name@)
                    &&& c_text(raw.localized_action_set_name@) == Some(
                        info.localized_action_set_name@,
                    )
                    &&& info.priority == raw.priority
                },
                Err(e) => e.code == ERROR_VALIDATION_FAILURE && (c_text(
                    raw.action_set_name@,
                ) is None || c_text(raw.localized_action_set_name@) is None),
            },
    {
        if instance.is_err() {
            return Err(XrErr::new(ERROR_HANDLE_INVALID));
        }
        ActionSetCreateInfo::from_raw(raw)
    }
}

/// A swapchain renders with what its session renders with, and both have their own handles.
pub proof fn law_swapchain_follows_session(
    session: u64,
    binding: Option<GraphicsBinding>,
    swapchain: u64,
)
    ensures
        AnySession::of_binding(session, binding).handle() == session,
        AnySwapchain::of_session(
            swapchain,
            AnySession::of_binding(session, binding),
        ).handle() == swapchain,
        AnySwapchain::of_session(
            swapchain,
            AnySession::of_binding(session, binding),
        ) is Unhandled <==> binding is None,
        AnySwapchain::of_session(
            swapchain,
            AnySession::of_binding(session, binding),
        ) is Vulkan <==> binding matches Some(GraphicsBinding::Vulkan(_)),
{
}

/// What an application says of itself is taken over, with its names cut at their zero byte; it is
/// refused exactly if one of the names has none.
pub proof fn law_application_is_described(raw: &RawInstanceCreateInfo, r: XrResult<InstanceCreateInfo>)
    requires
        call_ensures(InstanceCreateInfo::from_raw, (raw,), r),
    ensures
        ({
            let app = raw.application_info;
            &&& r is Ok <==> c_string(app.application_name@) is Some && c_string(
                app.engine_name@,
            ) is Some
            &&& r matches Err(e) ==> e.code == -1
            &&& r matches Ok(info) ==> {
                &&& c_string(app.application_name@) == Some(
                    info.application_info.application_name@,
                )
                &&& c_string(app.engine_name@) == Some(info.application_info.engine_name@)
                &&& info.application_info.application_version == app.application_version
                &&& info.application_info.engine_version == app.engine_version
                &&& info.application_info.api_version == app.api_version
                &&& byte_names(info.required_extensions@) == byte_names(
                    raw.enabled_extension_names@,
                )
                &&& byte_names(info.layers@) == byte_names(raw.enabled_api_layer_names@)
            }
        }),
        forall|a: &RawApplicationInfo, s: XrResult<ApplicationInfo>| #[trigger]
            call_ensures(ApplicationInfo::from_raw, (a,), s) ==> {
                &&& s is Ok <==> c_string(a.application_name@) is Some && c_string(
                    a.engine_name@,
                ) is Some
                &&& s matches Err(e) ==> e.code == -1
                &&& s matches Ok(info) ==> {
                    &&& c_string(a.application_name@) == Some(info.application_name@)
                    &&& c_string(a.engine_name@) == Some(info.engine_name@)
                    &&& info.application_version == a.application_version
                    &&& info.engine_version == a.engine_version
                    &&& info.api_version == a.api_version
                }
            },
{
}

/// An instance is wrapped exactly if nothing that it is created from is missing, its functions
/// were loaded, it could be wrapped, and its description can be read; the first error counts.
pub proof fn law_instance_is_wrapped(
    handle: &InstanceHandle,
    args: &InstanceArgs,
    checked: XrResult<()>,
    loaded: XrResult<()>,
    wrapped: XrResult<u64>,
    raw: &RawInstanceCreateInfo,
    r: XrResult<(u64, InstanceCreateInfo)>,
)
    requires
        call_ensures(InstanceHandle::check_args, (handle, args), checked),
        call_ensures(instance_into_high, (loaded, wrapped, raw), r),
    ensures
        checked is Ok <==> !args.info_is_null && !args.api_layer_info_is_null
            && !args.instance_is_null,
        checked matches Err(e) ==> e.code == -1,
        loaded matches Err(e) ==> (r matches Err(f) && f == e),
        loaded is Ok ==> (wrapped matches Err(e) ==> (r matches Err(f) && f == e)),
        r matches Ok((h, info)) ==> wrapped == XrResult::<u64>::Ok(h) && byte_names(
            info.required_extensions@,
        ) == byte_names(raw.enabled_extension_names@) && byte_names(info.layers@) == byte_names(
            raw.enabled_api_layer_names@,
        ) && info.application_info.application_version == raw.application_info.application_version,
        loaded is Ok && wrapped is Ok ==> (r is Ok <==> c_string(
            raw.application_info.application_name@,
        ) is Some && c_string(raw.application_info.engine_name@) is Some),
{
}

/// A graphics binding keeps what its structure says.
pub proof fn law_bindings_keep_their_parts(x: XlibBinding, c: XcbBinding, w: WaylandBinding, v: VulkanBinding)
    ensures
        binding_in(ChainLink::Vulkan(v)) == Some(GraphicsBinding::Vulkan(v)),
        binding_in(ChainLink::GlXlib(x)) matches Some(GraphicsBinding::GlXlib {
            glx_fb_config,
            glx_drawable,
            glx_context,
            x_display,
            visualid,
        }) && glx_fb_config == x.glx_fb_config && glx_drawable == x.glx_drawable && glx_context
            == x.glx_context && x_display == x.x_display && visualid == x.visualid,
        binding_in(ChainLink::GlXcb(c)) matches Some(GraphicsBinding::GlXcb {
            connection,
            screen_number,
            fbconfigid,
            visualid,
            glx_drawable,
            glx_context,
        }) && connection == c.connection && screen_number == c.screen_number && fbconfigid
            == c.fbconfigid && visualid == c.visualid && glx_drawable == c.glx_drawable
            && glx_context == c.glx_context,
        binding_in(ChainLink::GlWayland(w)) matches Some(GraphicsBinding::GlWayland { display })
            && display == w.display,
        forall|t: i32| #[trigger] binding_in(ChainLink::Other(t)) is None,
{
}

/// The first structure of the chain that is a graphics binding counts.
pub proof fn law_first_binding_counts(chain: Seq<ChainLink>)
    ensures
        match first_binding(chain) {
            Some(b) => exists|i: int|
                0 <= i < chain.len() && binding_in(#[trigger] chain[i]) == Some(b) && forall|j: int|
                    0 <= j < i ==> #[trigger] chain[j] is Other,
            None => forall|i: int| 0 <= i < chain.len() ==> #[trigger] chain[i] is Other,
        },
    decreases chain.len(),
{
    if chain.len() > 0 && binding_in(chain[0]) is None {
        let rest = chain.subrange(1, chain.len() as int);
        law_first_binding_counts(rest);
        match first_binding(rest) {
            Some(b) => {
                let i = choose|i: int|
                    0 <= i < rest.len() && binding_in(#[trigger] rest[i]) == Some(b) && forall|j: int|
                        0 <= j < i ==> #[trigger] rest[j] is Other;
                assert(chain[i + 1] == rest[i]);
                assert forall|j: int| 0 <= j < i + 1 implies #[trigger] chain[j] is Other by {
                    if j > 0 {
                        assert(chain[j] == rest[j - 1]);
                    }
                }
            },
            None => {
                assert forall|j: int| 0 <= j < chain.len() implies #[trigger] chain[j] is Other by {
                    if j > 0 {
                        assert(chain[j] == rest[j - 1]);
                    }
                }
            },
        }
    }
}

/// A session is wrapped if its instance is known, by the graphics binding that it was created
/// with; a swapchain if its session is known, as its session is.
pub proof fn law_sessions_are_wrapped(
    handle: u64,
    instance: &Result<u64, RegisterationError>,
    raw: &RawSessionCreateInfo,
    r: XrResult<(AnySession, SessionCreateInfo)>,
    chain: u64,
    session: &Result<AnySession, RegisterationError>,
    s: XrResult<AnySwapchain>,
)
    requires
        call_ensures(AnySession::into_high, (handle, instance, raw), r),
        call_ensures(AnySwapchain::into_high, (chain, session), s),
    ensures
        r is Ok <==> *instance is Ok,
        r matches Err(e) ==> e.code == -12,
        r matches Ok((any, info)) ==> {
            &&& info.system_id == raw.system_id
            &&& info.graphics_binding == first_binding(raw.chain@)
            &&& info.graphics_binding is None ==> any == AnySession::Unhandled(handle)
            &&& info.graphics_binding matches Some(b) ==> if b is Vulkan {
                any == AnySession::Vulkan(handle)
            } else {
                any == AnySession::Gl(handle)
            }
        },
        s is Ok <==> *session is Ok,
        s matches Err(e) ==> e.code == -12,
        *session matches Ok(any) ==> (s matches Ok(sw) && match any {
            AnySession::Vulkan(_) => sw == AnySwapchain::Vulkan(chain),
            AnySession::Gl(_) => sw == AnySwapchain::Gl(chain),
            AnySession::Unhandled(_) => sw == AnySwapchain::Unhandled(chain),
        }),
{
}

/// A session or swapchain has its own handle, whatever it renders with.
pub proof fn law_handles_are_kept(h: u64)
    ensures
        AnySession::Vulkan(h).handle() == h,
        AnySession::Gl(h).handle() == h,
        AnySession::Unhandled(h).handle() == h,
        AnySwapchain::Vulkan(h).handle() == h,
        AnySwapchain::Gl(h).handle() == h,
        AnySwapchain::Unhandled(h).handle() == h,
        forall|s: &AnySession, r: u64| #[trigger]
            call_ensures(AnySession::as_handle, (s,), r) ==> r == s.handle(),
        forall|s: &AnySwapchain, r: u64| #[trigger]
            call_ensures(AnySwapchain::as_handle, (s,), r) ==> r == s.handle(),
{
}

/// Only what nothing wraps is destroyed by its instance, and only if that instance is there.
pub proof fn law_unwrapped_is_destroyed(
    session: &AnySession,
    swapchain: &AnySwapchain,
    registry: &Registry,
    high_type: u64,
    target: &'static str,
    r: Option<u64>,
    s: Option<u64>,
)
    requires
        call_ensures(AnySession::drop_target, (session, registry, high_type, target), r),
        call_ensures(AnySwapchain::drop_target, (swapchain, registry, high_type, target), s),
    ensures
        !(*session is Unhandled) ==> r is None,
        !(*swapchain is Unhandled) ==> s is None,
        *session is Unhandled ==> (instance_of(registry@.owner, session.handle()) is None
            ==> r is None),
        *session is Unhandled ==> (instance_of(registry@.owner, session.handle()) matches Some(i)
            ==> is_high_of(registry, i, high_type, r)),
        *swapchain is Unhandled ==> (instance_of(
            registry@.owner,
            swapchain.handle(),
        ) matches Some(i) ==> is_high_of(registry, i, high_type, s)),
        *swapchain is Unhandled ==> (instance_of(registry@.owner, swapchain.handle()) is None
            ==> s is None),
{
}

/// `high` is what `handle` was registered with, if that is of the wanted type.
pub open spec fn is_high_of(
    registry: &Registry,
    handle: u64,
    high_type: u64,
    high: Option<u64>,
) -> bool {
    let there = registry@.data.contains_key(handle) && registry@.data[handle].high_type
        == high_type;
    &&& high is Some <==> there
    &&& high matches Some(h) ==> h == registry@.data[handle].high
}

/// An action set's names are read as text up to their zero byte, and its priority is kept; it is
/// refused if its instance is unknown or a name cannot be read.
pub proof fn law_action_sets_are_read(
    instance: &Result<u64, RegisterationError>,
    raw: &RawActionSetCreateInfo,
    r: XrResult<ActionSetCreateInfo>,
    s: XrResult<ActionSetCreateInfo>,
)
    requires
        call_ensures(ActionSetCreateInfo::into_high, (instance, raw), r),
        call_ensures(ActionSetCreateInfo::from_raw, (raw,), s),
    ensures
        s is Ok <==> c_text(raw.action_set_name@) is Some && c_text(
            raw.localized_action_set_name@,
        ) is Some,
        s matches Err(e) ==> e.code == -1,
        s matches Ok(info) ==> c_text(raw.action_set_name@) == Some(info.action_set_name@)
            && c_text(raw.localized_action_set_name@) == Some(info.localized_action_set_name@)
            && info.priority == raw.priority,
        *instance is Err ==> (r matches Err(e) && e.code == -12),
        *instance is Ok ==> (r is Ok <==> s is Ok),
        *instance is Ok ==> (r matches Err(e) ==> e.code == -1),
        r matches Ok(info) ==> c_text(raw.action_set_name@) == Some(info.action_set_name@)
            && c_text(raw.localized_action_set_name@) == Some(info.localized_action_set_name@)
            && info.priority == raw.priority,
{
}

/// Functions are loaded for the extensions that are both required and supported, each once.
pub proof fn law_supported_extensions_are_loaded(
    required: &[Vec<u8>],
    supported: &[Vec<u8>],
    r: Vec<Vec<u8>>,
    copy: Vec<Vec<u8>>,
)
    requires
        call_ensures(extensions_to_load, (required, supported), r),
        call_ensures(copy_names, (required,), copy),
    ensures
        byte_names(r@).no_duplicates(),
        forall|n: Seq<u8>| #[trigger] byte_names(r@).contains(n) <==> byte_names(
            required@,
        ).contains(n) && byte_names(supported@).contains(n),
        byte_names(copy@) == byte_names(required@),
{
}

/// A session's create info is read from its chain, and bindings from their structures.
pub proof fn law_session_info_is_read(raw: &RawSessionCreateInfo, r: SessionCreateInfo)
    requires
        call_ensures(SessionCreateInfo::from_raw, (raw,), r),
    ensures
        r.system_id == raw.system_id,
        r.graphics_binding == first_binding(raw.chain@),
        forall|b: &VulkanBinding, g: GraphicsBinding| #[trigger]
            call_ensures(GraphicsBinding::from_raw_vulkan, (b,), g) ==> binding_in(
                ChainLink::Vulkan(*b),
            ) == Some(g),
        forall|b: &XlibBinding, g: GraphicsBinding| #[trigger]
            call_ensures(GraphicsBinding::from_raw_gl_xlib, (b,), g) ==> binding_in(
                ChainLink::GlXlib(*b),
            ) == Some(g),
        forall|b: &XcbBinding, g: GraphicsBinding| #[trigger]
            call_ensures(GraphicsBinding::from_raw_gl_xcb, (b,), g) ==> binding_in(
                ChainLink::GlXcb(*b),
            ) == Some(g),
        forall|b: &WaylandBinding, g: GraphicsBinding| #[trigger]
            call_ensures(GraphicsBinding::from_raw_gl_wayland, (b,), g) ==> binding_in(
                ChainLink::GlWayland(*b),
            ) == Some(g),
{
}

} // verus!
