//! Passthrough objects: what an application creates to show the camera.

use crate::registry::Facade;
use crate::session::{CameraResources, SessionData, SessionState};
use crate::types::AnySession;
use crate::xr_result::{XrErr, XrResult, ERROR_FEATURE_UNSUPPORTED};
use vstd::prelude::*;

verus! {

/// What all passthrough objects of a session share. The number tells those of different sessions
/// apart.
#[derive(Debug, Clone, Copy, PartialEq, Eq, Structural)]
pub struct PassthroughInner {
    pub id: u64,
}

/// What the layer knows before any session: the calibration of the camera, if there is one, and
/// the image that is shown before the camera's first.
pub struct LayerAssets<C> {
    pub camera_config: Option<C>,
    pub splash_image: Vec<u8>,
}

impl PassthroughInner {
    pub fn camera_cfg<C>(assets: &LayerAssets<C>) -> (r: Option<&C>)
        ensures
            r == (match assets.camera_config {
                Some(c) => Some(&c),
                None => None,
            }),
    {
        match &assets.camera_config {
            Some(c) => Some(c),
            None => None,
        }
    }

    pub fn splash<C>(assets: &LayerAssets<C>) -> (r: &[u8])
        ensures
            r@ == assets.splash_image@,
    {
        assets.splash_image.as_slice()
    }
}

/// A passthrough object. Its handle is the address of a byte of its own.
#[derive(Debug, Clone, Copy, PartialEq, Eq, Structural)]
pub struct PassthroughData {
    pub inner: PassthroughInner,
    pub form: i32,
    pub unique: u64,
}

/// Creates passthrough objects.
pub struct PassthroughFactory;

/// What comes of creating a passthrough object with this form and address.
pub open spec fn created(
    session: AnySession,
    data: SessionData,
    form: i32,
    unique: u64,
    fresh: PassthroughInner,
    camera: Option<XrResult<CameraResources>>,
) -> XrResult<(Facade, PassthroughData)> {
    match (session, data.inner) {
        (AnySession::Vulkan(_), Some(inner)) => match inner.state.asked_for_passthrough(
            fresh,
            camera,
        ) {
            Ok(inner) => Ok(
                (Facade { handle: unique }, PassthroughData { inner, form, unique }),
            ),
            Err(e) => Err(e),
        },
        _ => Err(XrErr { code: ERROR_FEATURE_UNSUPPORTED }),
    }
}

impl PassthroughFactory {
    /// Whether the camera has to be set up for a passthrough object of this session.
    pub fn needs_camera(session: &AnySession, data: &SessionData) -> (r: bool)
        ensures
            r == (*session is Vulkan && (data.inner matches Some(inner) && inner.state is Running)),
    {
        match (session, &data.inner) {
            (AnySession::Vulkan(_), Some(inner)) => inner.state.needs_camera(),
            _ => false,
        }
    }

    /// Creates a passthrough object with the given form and address. Only a session that is
    /// handled and renders with Vulkan can have one. The first one of a session gives the session
    /// its passthrough, `fresh`; the others share it.
    pub fn create(
        session: &AnySession,
        data: &mut SessionData,
        form: i32,
        unique: u64,
        fresh: PassthroughInner,
        camera: Option<XrResult<CameraResources>>,
    ) -> (r: XrResult<(Facade, PassthroughData)>)
        requires
            *session is Vulkan && (old(data).inner matches Some(inner) && inner.state is Running)
                ==> camera is Some,
        ensures
            r == created(*session, *old(data), form, unique, fresh, camera),
            match (*session, old(data).inner) {
                (AnySession::Vulkan(_), Some(inner)) => *final(data) == old(data).with_state(
                    inner.state.after_passthrough(fresh, camera),
                ),
                _ => *final(data) == *old(data),
            },
    {
        match session {
            AnySession::Vulkan(_) => (),
            _ => return Err(XrErr::new(ERROR_FEATURE_UNSUPPORTED)),
        }
        match &mut data.inner {
            None => Err(XrErr::new(ERROR_FEATURE_UNSUPPORTED)),
            Some(inner) => match inner.state.get_or_add_passthrough(fresh, camera) {
                Ok(passthrough) => Ok(
                    (
                        Facade { handle: unique },
                        PassthroughData { inner: passthrough, form, unique },
                    ),
                ),
                Err(e) => Err(e),
            },
        }
    }
}

/// Each object is found under its own address.
pub open spec fn addressed(objects: Map<u64, PassthroughData>) -> bool {
    forall|handle: u64| #[trigger]
        objects.contains_key(handle) ==> objects[handle].unique == handle
}

/// An object that is created where no other lives has a handle that no other has. It keeps the
/// form that it was created with, and the others are found as before.
pub proof fn law_handles_tell_objects_apart(
    objects: Map<u64, PassthroughData>,
    session: AnySession,
    data: SessionData,
    form: i32,
    unique: u64,
    fresh: PassthroughInner,
    camera: Option<XrResult<CameraResources>>,
)
    requires
        addressed(objects),
        forall|handle: u64| #[trigger]
            objects.contains_key(handle) ==> objects[handle].unique != unique,
        created(session, data, form, unique, fresh, camera) is Ok,
    ensures
        ({
            let (facade, object) = created(session, data, form, unique, fresh, camera)->Ok_0;
            let all = objects.insert(facade.handle, object);
            &&& !objects.contains_key(facade.handle)
            &&& addressed(all)
            &&& all[facade.handle].form == form
            &&& forall|handle: u64| #[trigger]
                objects.contains_key(handle) ==> all.contains_key(handle) && all[handle]
                    == objects[handle]
        }),
{
}

/// `i` is the place of the first structure of type `ty`.
pub open spec fn first_of_type(chain: Seq<i32>, ty: i32, i: int) -> bool {
    0 <= i < chain.len() && chain[i] == ty && forall|j: int| 0 <= j < i ==> chain[j] != ty
}

/// Finds the mesh of a passthrough layer among the structures that are chained to the layer,
/// which are given by their types.
pub fn find_mesh(chain: &[i32], mesh_type: i32) -> (r: Option<usize>)
    ensures
        match r {
            Some(i) => first_of_type(chain@, mesh_type, i as int),
            None => !chain@.contains(mesh_type),
        },
{
    let mut i: usize = 0;
    while i < chain.len()
        invariant
            i <= chain.len(),
            forall|j: int| 0 <= j < i ==> chain@[j] != mesh_type,
        decreases chain.len() - i,
    {
        if chain[i] == mesh_type {
            return Some(i);
        }
        i += 1;
    }
    None
}

/// A passthrough object is created exactly if the session renders with Vulkan, is handled, and
/// its camera, where one is needed, could be set up. Its handle is its address.
pub proof fn law_passthrough_is_created(
    session: &AnySession,
    form: i32,
    unique: u64,
    fresh: PassthroughInner,
    camera: Option<XrResult<CameraResources>>,
)
    ensures
        forall|data: &mut SessionData, r: XrResult<(Facade, PassthroughData)>| #[trigger]
            call_ensures(
                PassthroughFactory::create,
                (session, data, form, unique, fresh, camera),
                r,
            ) ==> {
                &&& !(*session is Vulkan) || (*data).inner is None ==> (r matches Err(e) && e.code
                    == -8) && *final(data) == *data
                &&& r matches Ok((facade, object)) ==> facade.handle == unique && object.unique
                    == unique && object.form == form
                &&& *session is Vulkan ==> ((*data).inner matches Some(before) ==> {
                    &&& r is Err <==> before.state is Running && (camera matches Some(Err(_)))
                    &&& r is Err ==> (camera matches Some(Err(e)) && (r matches Err(f) && f == e))
                    &&& final(data).inner matches Some(after) && {
                        &&& after.device == before.device
                        &&& after.queue == before.queue
                        &&& after.system_id == before.system_id
                        &&& r matches Ok((_, object)) ==> match after.state {
                            SessionState::IdleWithPassthrough { passthrough } => passthrough
                                == object.inner,
                            SessionState::RunningWithPassthrough { passthrough, .. } => passthrough
                                == object.inner,
                            _ => camera is None,
                        }
                        &&& r is Err ==> after.state == before.state
                    }
                })
            },
        forall|data: &SessionData, r: bool| #[trigger]
            call_ensures(PassthroughFactory::needs_camera, (session, data), r) ==> (r <==> *session
                is Vulkan && (data.inner matches Some(inner) && inner.state is Running)),
{
}

/// The mesh is the first structure of its type; there is none only if no structure is.
pub proof fn law_first_mesh_is_found(chain: &[i32], ty: i32, r: Option<usize>)
    requires
        call_ensures(find_mesh, (chain, ty), r),
    ensures
        r matches Some(i) ==> i < chain@.len() && chain@[i as int] == ty,
        r matches Some(i) ==> forall|j: int| 0 <= j < i ==> #[trigger] chain@[j] != ty,
        r is None ==> forall|j: int| 0 <= j < chain@.len() ==> #[trigger] chain@[j] != ty,
{
    if r is None {
        assert forall|j: int| 0 <= j < chain@.len() implies #[trigger] chain@[j] != ty by {
            if chain@[j] == ty {
                assert(chain@.contains(ty));
            }
        }
    }
}

/// The calibration and the splash image are those that the layer was given.
pub proof fn law_assets_are_given_out(
    assets: &LayerAssets<u64>,
    config: Option<&u64>,
    splash: &[u8],
)
    requires
        call_ensures(PassthroughInner::camera_cfg::<u64>, (assets,), config),
        call_ensures(PassthroughInner::splash::<u64>, (assets,), splash),
    ensures
        config is Some <==> assets.camera_config is Some,
        config matches Some(c) ==> assets.camera_config == Some(*c),
        splash@ == assets.splash_image@,
{
}

} // verus!
