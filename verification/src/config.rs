//! The user's configuration.

use vstd::prelude::*;
use vstd::string::*;

verus! {

/// Since the eyes are not where the cameras are, the camera's view cannot be projected into VR
/// space perfectly. Things that are too close are seen double.
#[derive(Debug, Clone, Copy, PartialEq, Eq, PartialOrd, Ord, Structural)]
pub enum ProjectionMode {
    /// The eyes are taken to be where the cameras are: more can be seen, but it looks smaller.
    FromCamera,
    /// The cameras are taken to be where the eyes are: everything has its right size, but less
    /// can be seen.
    FromEye,
}

impl Default for ProjectionMode {
    fn default() -> (r: ProjectionMode)
        ensures
            r == ProjectionMode::FromCamera,
    {
        ProjectionMode::FromCamera
    }
}

#[derive(Debug, Clone, Copy, PartialEq, Eq, PartialOrd, Ord, Structural)]
pub enum Eye {
    Left,
    Right,
}

pub fn default_display_eye() -> (r: Eye)
    ensures
        r == Eye::Left,
{
    Eye::Left
}

/// How the camera's view is displayed.
#[derive(Debug, Clone, Copy, PartialEq, Eq, PartialOrd, Ord, Structural)]
pub enum DisplayMode {
    Direct,
    /// A stereo image: the overlay is a window from VR space to the real world.
    Stereo { projection_mode: ProjectionMode },
    /// The image of one of the cameras.
    Flat { eye: Eye },
}

impl Default for DisplayMode {
    fn default() -> (r: DisplayMode)
        ensures
            r == DisplayMode::Direct,
    {
        DisplayMode::Direct
    }
}

impl DisplayMode {
    pub open spec fn spec_projection_mode(&self) -> Option<ProjectionMode> {
        match *self {
            DisplayMode::Stereo { projection_mode } => Some(projection_mode),
            _ => None,
        }
    }

    /// How the image is projected, if it is.
    #[verifier::when_used_as_spec(spec_projection_mode)]
    pub fn projection_mode(&self) -> (r: Option<ProjectionMode>)
        ensures
            r == self.spec_projection_mode(),
    {
        match self {
            DisplayMode::Stereo { projection_mode } => Some(*projection_mode),
            _ => None,
        }
    }

    pub open spec fn spec_is_stereo(&self) -> bool {
        !(*self is Flat)
    }

    /// Whether each eye sees an image of its own.
    #[verifier::when_used_as_spec(spec_is_stereo)]
    pub fn is_stereo(&self) -> (r: bool)
        ensures
            r == self.spec_is_stereo(),
    {
        match self {
            DisplayMode::Flat { .. } => false,
            _ => true,
        }
    }
}

pub fn default_z_order() -> (r: u32)
    ensures
        r == u32::MAX,
{
    u32::MAX
}

#[derive(Debug)]
pub struct Config {
    /// The camera to use. The camera is looked for if this is empty.
    pub camera_device: String,
    /// How the camera's view is displayed.
    pub display_mode: DisplayMode,
    /// Whether a capture for debugging can be triggered.
    pub debug: bool,
}

impl Default for Config {
    fn default() -> (r: Config)
        ensures
            r.camera_device@ == Seq::<char>::empty(),
            r.display_mode == DisplayMode::Direct,
            !r.debug,
    {
        Config { camera_device: String::new(), display_mode: DisplayMode::Direct, debug: false }
    }
}

/// A display mode as it stands in the file, where all but the mode itself may be left out.
#[derive(Debug, Clone, Copy, PartialEq, Eq, Structural)]
pub enum FileDisplayMode {
    Direct,
    Stereo { projection_mode: Option<ProjectionMode> },
    Flat { eye: Option<Eye> },
}

/// A configuration as it stands in the file, where everything may be left out.
#[derive(Debug)]
pub struct FileConfig {
    pub camera_device: Option<String>,
    pub display_mode: Option<FileDisplayMode>,
    pub debug: Option<bool>,
}

/// The display mode that the file means.
pub open spec fn meant_mode(mode: FileDisplayMode) -> DisplayMode {
    match mode {
        FileDisplayMode::Direct => DisplayMode::Direct,
        FileDisplayMode::Stereo { projection_mode } => DisplayMode::Stereo {
            projection_mode: match projection_mode {
                Some(p) => p,
                None => ProjectionMode::FromCamera,
            },
        },
        FileDisplayMode::Flat { eye } => DisplayMode::Flat {
            eye: match eye {
                Some(e) => e,
                None => Eye::Left,
            },
        },
    }
}

impl FileDisplayMode {
    /// Fills in what was left out.
    pub fn with_defaults(&self) -> (r: DisplayMode)
        ensures
            r == meant_mode(*self),
    {
        match *self {
            FileDisplayMode::Direct => DisplayMode::Direct,
            FileDisplayMode::Stereo { projection_mode } => DisplayMode::Stereo {
                projection_mode: match projection_mode {
                    Some(p) => p,
                    None => ProjectionMode::default(),
                },
            },
            FileDisplayMode::Flat { eye } => DisplayMode::Flat {
                eye: match eye {
                    Some(e) => e,
                    None => default_display_eye(),
                },
            },
        }
    }
}

/// The configuration: what the file says, with defaults for what it does not say. Without a file
/// everything has its default.
pub fn load_config(file: Option<FileConfig>) -> (r: Config)
    ensures
        r.camera_device@ == (match file {
            Some(f) => match f.camera_device {
                Some(d) => d@,
                None => Seq::<char>::empty(),
            },
            None => Seq::<char>::empty(),
        }),
        r.display_mode == (match file {
            Some(f) => match f.display_mode {
                Some(m) => meant_mode(m),
                None => DisplayMode::Direct,
            },
            None => DisplayMode::Direct,
        }),
        r.debug == (file matches Some(f) && f.debug == Some(true)),
{
    let defaults = Config::default();
    match file {
        Some(f) => Config {
            camera_device: match f.camera_device {
                Some(d) => d,
                None => defaults.camera_device,
            },
            display_mode: match f.display_mode {
                Some(m) => m.with_defaults(),
                None => defaults.display_mode,
            },
            debug: match f.debug {
                Some(d) => d,
                None => defaults.debug,
            },
        },
        None => defaults,
    }
}

/// Only a stereo mode is projected, and what is projected is stereo.
pub proof fn law_projection_is_stereo(mode: DisplayMode)
    ensures
        mode.projection_mode() is Some ==> mode.is_stereo(),
        mode.projection_mode() is Some <==> mode is Stereo,
{
}

/// What the file says is kept, and only what it leaves out has its default: no camera is named,
/// the view is displayed directly, and debugging is off.
pub proof fn law_file_is_kept(file: FileConfig, r: Config)
    requires
        call_ensures(load_config, (Some(file),), r),
    ensures
        file.camera_device matches Some(d) ==> r.camera_device@ == d@,
        file.camera_device is None ==> r.camera_device@.len() == 0,
        file.debug matches Some(d) ==> r.debug == d,
        file.debug is None ==> !r.debug,
        file.display_mode is None ==> r.display_mode is Direct,
        file.display_mode matches Some(m) ==> {
            &&& m is Direct <==> r.display_mode is Direct
            &&& m is Stereo <==> r.display_mode is Stereo
            &&& m is Flat <==> r.display_mode is Flat
        },
{
}

/// A projection mode that the file names is the one that is used, and so is an eye. Without them
/// the projection is from the camera, and the eye is the left one.
pub proof fn law_named_mode_is_used(p: ProjectionMode, e: Eye)
    ensures
        forall|m: &FileDisplayMode, r: DisplayMode| #[trigger]
            call_ensures(FileDisplayMode::with_defaults, (m,), r) ==> {
                &&& *m == (FileDisplayMode::Stereo { projection_mode: Some(p) }) ==> r
                    == DisplayMode::Stereo { projection_mode: p }
                &&& *m == (FileDisplayMode::Flat { eye: Some(e) }) ==> r == DisplayMode::Flat {
                    eye: e,
                }
                &&& *m == (FileDisplayMode::Stereo { projection_mode: None }) ==> r
                    == DisplayMode::Stereo { projection_mode: ProjectionMode::FromCamera }
                &&& *m == (FileDisplayMode::Flat { eye: None }) ==> r == DisplayMode::Flat {
                    eye: Eye::Left,
                }
                &&& *m is Direct ==> r is Direct
            },
        meant_mode(FileDisplayMode::Stereo { projection_mode: Some(p) }) == (
        DisplayMode::Stereo { projection_mode: p }),
        meant_mode(FileDisplayMode::Flat { eye: Some(e) }) == (DisplayMode::Flat { eye: e }),
{
}

/// Files that name different projection modes, or different eyes, lead to different
/// configurations.
pub proof fn law_different_modes_stay_different(a: FileConfig, b: FileConfig, x: Config, y: Config)
    requires
        call_ensures(load_config, (Some(a),), x),
        call_ensures(load_config, (Some(b),), y),
        a.display_mode matches Some(m) && (m matches FileDisplayMode::Stereo { projection_mode }
            ==> projection_mode is Some) && (m matches FileDisplayMode::Flat { eye } ==> eye
            is Some),
        b.display_mode matches Some(m) && (m matches FileDisplayMode::Stereo { projection_mode }
            ==> projection_mode is Some) && (m matches FileDisplayMode::Flat { eye } ==> eye
            is Some),
    ensures
        x.display_mode == y.display_mode <==> a.display_mode == b.display_mode,
{
}

/// Without a file everything has its default.
pub proof fn law_no_file_means_defaults(r: Config)
    requires
        call_ensures(load_config, (None,), r),
    ensures
        r.camera_device@.len() == 0,
        r.display_mode is Direct,
        !r.debug,
{
}

/// Each eye sees an image of its own unless the image of one camera is shown, and only a stereo
/// image is projected, in the way that it names.
pub proof fn law_display_modes(mode: DisplayMode, p: ProjectionMode, e: Eye)
    ensures
        DisplayMode::Direct.is_stereo(),
        (DisplayMode::Stereo { projection_mode: p }).is_stereo(),
        !(DisplayMode::Flat { eye: e }).is_stereo(),
        DisplayMode::Direct.projection_mode() is None,
        (DisplayMode::Stereo { projection_mode: p }).projection_mode() == Some(p),
        (DisplayMode::Flat { eye: e }).projection_mode() is None,
        forall|r: Eye| #[trigger] call_ensures(default_display_eye, (), r) ==> r is Left,
        forall|r: u32| #[trigger] call_ensures(default_z_order, (), r) ==> r == 0xffff_ffff,
{
}

/// What a configuration and its parts are if nothing is said.
pub proof fn law_defaults(p: ProjectionMode, d: DisplayMode, c: Config)
    requires
        call_ensures(<ProjectionMode as Default>::default, (), p),
        call_ensures(<DisplayMode as Default>::default, (), d),
        call_ensures(<Config as Default>::default, (), c),
    ensures
        p is FromCamera,
        d is Direct,
        c.camera_device@.len() == 0 && c.display_mode is Direct && !c.debug,
{
}

} // verus!
