//! Finding the camera.

use vstd::prelude::*;
use vstd::string::*;

verus! {

/// What is looked for among the devices of the system.
#[derive(Debug)]
pub struct DeviceQuery {
    pub subsystem: String,
    /// Properties and the values that they have to have.
    pub properties: Vec<(String, String)>,
}

/// The Index's camera: a video device with the maker's and the model's number.
pub fn index_camera_query() -> (r: DeviceQuery)
    ensures
        r.subsystem@ == "video4linux"@,
        r.properties@.len() == 2,
        r.properties@[0].0@ == "ID_VENDOR_ID"@,
        r.properties@[0].1@ == "28de"@,
        r.properties@[1].0@ == "ID_MODEL_ID"@,
        r.properties@[1].1@ == "2400"@,
{
    let mut properties: Vec<(String, String)> = Vec::new();
    properties.push(("ID_VENDOR_ID".to_owned(), "28de".to_owned()));
    properties.push(("ID_MODEL_ID".to_owned(), "2400".to_owned()));
    DeviceQuery { subsystem: "video4linux".to_owned(), properties }
}

/// Why there is no camera.
#[derive(Debug, Clone, Copy, PartialEq, Eq, Structural)]
pub enum CameraSearchError {
    NotFound,
    /// There is one, but it has no file to open.
    CannotBeAccessed,
}

/// The file of the first device that was found. A device may have none.
pub fn find_index_camera(devices: &[Option<String>]) -> (r: Result<String, CameraSearchError>)
    ensures
        match r {
            Ok(node) => devices@.len() > 0 && devices@[0] == Some(node),
            Err(CameraSearchError::NotFound) => devices@.len() == 0,
            Err(CameraSearchError::CannotBeAccessed) => devices@.len() > 0 && devices@[0] is None,
        },
{
    if devices.len() == 0 {
        return Err(CameraSearchError::NotFound);
    }
    match &devices[0] {
        Some(node) => Ok(node.clone()),
        None => Err(CameraSearchError::CannotBeAccessed),
    }
}

/// The flag of a device that captures video.
pub const VIDEO_CAPTURE: u32 = 1;

/// Whether a device captures video, by its flags.
pub fn can_capture(capabilities: u32) -> (r: bool)
    ensures
        r == (capabilities & VIDEO_CAPTURE == VIDEO_CAPTURE),
{
    capabilities & VIDEO_CAPTURE == VIDEO_CAPTURE
}

/// The camera is looked for among the video devices, by its maker and its model.
pub proof fn law_camera_query(r: DeviceQuery)
    requires
        call_ensures(index_camera_query, (), r),
    ensures
        r.subsystem@ == "video4linux"@,
        r.properties@.len() == 2,
        r.properties@[0].0@ == "ID_VENDOR_ID"@ && r.properties@[0].1@ == "28de"@,
        r.properties@[1].0@ == "ID_MODEL_ID"@ && r.properties@[1].1@ == "2400"@,
{
}

/// The first device is taken; without one there is no camera, and one without a file cannot be
/// opened.
pub proof fn law_first_camera_is_taken(
    devices: &[Option<String>],
    r: Result<String, CameraSearchError>,
    flags: u32,
    captures: bool,
)
    requires
        call_ensures(find_index_camera, (devices,), r),
        call_ensures(can_capture, (flags,), captures),
    ensures
        r is Ok <==> devices@.len() > 0 && devices@[0] is Some,
        r matches Ok(node) ==> devices@[0] == Some(node),
        r == Err::<String, _>(CameraSearchError::NotFound) <==> devices@.len() == 0,
        captures <==> flags % 2 == 1,
{
    assert(flags & 1 == 1 <==> flags % 2 == 1) by (bit_vector);
}

} // verus!
