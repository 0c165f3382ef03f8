//! Installing the layer: where its files go, and what its manifest says.

use crate::text::{join, str_eq};
use vstd::prelude::*;
use vstd::string::*;

verus! {

/// Why nothing is installed.
#[derive(Debug)]
pub enum InstallError {
    /// No command was given.
    MissingVerb,
    /// The command is not known.
    UnknownCommand(String),
}

/// The only command is to install.
pub fn check_command(command: Option<&str>) -> (r: Result<(), InstallError>)
    ensures
        match command {
            None => r matches Err(InstallError::MissingVerb),
            Some(c) => if c@ == "install"@ {
                r is Ok
            } else {
                r matches Err(InstallError::UnknownCommand(name)) && name@ == c@
            },
        },
{
    match command {
        None => Err(InstallError::MissingVerb),
        Some(c) => if str_eq(c, "install") {
            Ok(())
        } else {
            Err(InstallError::UnknownCommand(c.to_owned()))
        },
    }
}

/// With which code to exit after the build: not at all if it worked, and with the code of the
/// build, or one if it has none, if it did not.
pub fn exit_after_build(success: bool, code: Option<i32>) -> (r: Option<i32>)
    ensures
        r == (if success {
            None
        } else {
            match code {
                Some(c) => Some(c),
                None => Some(1i32),
            }
        }),
{
    if success {
        None
    } else {
        match code {
            Some(c) => Some(c),
            None => Some(1),
        }
    }
}

/// A file or directory in a directory.
pub open spec fn path_in(dir: Seq<char>, name: Seq<char>) -> Seq<char> {
    if dir.len() == 0 || dir.last() == '/' {
        dir + name
    } else {
        dir + "/"@ + name
    }
}

fn join_path(dir: &str, name: &str) -> (r: String)
    ensures
        r@ == path_in(dir@, name@),
{
    let n: usize = dir.unicode_len();
    if n == 0 || dir.get_char(n - 1) == '/' {
        join(dir, name)
    } else {
        let mut out: String = join(dir, "/");
        out.append(name);
        out
    }
}

/// Where the library goes.
pub open spec fn library_dir(home: Seq<char>) -> Seq<char> {
    path_in(path_in(path_in(home, ".local"@), "lib"@), "xr_passthrough_layer"@)
}

/// Where the manifest goes.
pub open spec fn manifest_dir(home: Seq<char>) -> Seq<char> {
    path_in(
        path_in(
            path_in(
                path_in(path_in(path_in(home, ".local"@), "share"@), "openxr"@),
                "1"@,
            ),
            "api_layers"@,
        ),
        "explicit.d"@,
    )
}

/// Where everything goes.
#[derive(Debug)]
pub struct InstallPaths {
    pub library_dir: String,
    pub library: String,
    pub manifest_dir: String,
    pub manifest: String,
    /// The library that was built.
    pub built_library: String,
}

/// Where everything goes, for the user with this home directory.
pub fn install_paths(home: &str) -> (r: InstallPaths)
    ensures
        r.library_dir@ == library_dir(home@),
        r.library@ == path_in(library_dir(home@), "liblayer.so"@),
        r.manifest_dir@ == manifest_dir(home@),
        r.manifest@ == path_in(manifest_dir(home@), "XR_APILAYER_YX_passthrough.json"@),
        r.built_library@ == path_in(
            path_in("target"@, "release"@),
            "libxr_passthrough_layer.so"@,
        ),
{
    let local = join_path(home, ".local");
    let lib = join_path(local.as_str(), "lib");
    let library_dir = join_path(lib.as_str(), "xr_passthrough_layer");
    let library = join_path(library_dir.as_str(), "liblayer.so");
    let share = join_path(local.as_str(), "share");
    let openxr = join_path(share.as_str(), "openxr");
    let version = join_path(openxr.as_str(), "1");
    let layers = join_path(version.as_str(), "api_layers");
    let manifest_dir = join_path(layers.as_str(), "explicit.d");
    let manifest = join_path(manifest_dir.as_str(), "XR_APILAYER_YX_passthrough.json");
    let release = join_path("target", "release");
    let built_library = join_path(release.as_str(), "libxr_passthrough_layer.so");
    InstallPaths { library_dir, library, manifest_dir, manifest, built_library }
}

/// What comes of making a directory.
#[derive(Debug, Clone, Copy, PartialEq, Eq, Structural)]
pub enum DirOutcome {
    Made,
    AlreadyThere,
    Failed,
}

/// Whether the installation can go on.
pub fn directory_is_there(outcome: DirOutcome) -> (r: bool)
    ensures
        r == !(outcome is Failed),
{
    match outcome {
        DirOutcome::Failed => false,
        _ => true,
    }
}

/// An extension that the layer provides.
#[derive(Debug)]
pub struct Extension {
    pub name: String,
    pub extension_version: String,
}

#[derive(Debug)]
pub struct ApiLayer {
    pub name: String,
    pub library_path: String,
    pub api_version: String,
    pub implementation_version: String,
    pub description: String,
    pub instance_extensions: Vec<Extension>,
}

/// What the loader is told of the layer.
#[derive(Debug)]
pub struct Manifest {
    pub file_format_version: String,
    pub api_layer: ApiLayer,
}

/// The manifest of the layer whose library is at `library_path`.
pub fn layer_manifest(library_path: &str) -> (r: Manifest)
    ensures
        r.file_format_version@ == "1.0.0"@,
        r.api_layer.name@ == "XR_APILAYER_YX_passthrough"@,
        r.api_layer.library_path@ == library_path@,
        r.api_layer.api_version@ == "1.0"@,
        r.api_layer.implementation_version@ == "1"@,
        r.api_layer.description@ == "Passthrough"@,
        r.api_layer.instance_extensions@.len() == 1,
        r.api_layer.instance_extensions@[0].name@ == "XR_HTC_passthrough"@,
        r.api_layer.instance_extensions@[0].extension_version@ == "1"@,
{
    let mut instance_extensions: Vec<Extension> = Vec::new();
    instance_extensions.push(
        Extension { name: "XR_HTC_passthrough".to_owned(), extension_version: "1".to_owned() },
    );
    Manifest {
        file_format_version: "1.0.0".to_owned(),
        api_layer: ApiLayer {
            name: "XR_APILAYER_YX_passthrough".to_owned(),
            library_path: library_path.to_owned(),
            api_version: "1.0".to_owned(),
            implementation_version: "1".to_owned(),
            description: "Passthrough".to_owned(),
            instance_extensions,
        },
    }
}

/// Installing is the only command.
pub proof fn law_only_install_is_known(command: Option<&'static str>, r: Result<(), InstallError>)
    requires
        call_ensures(check_command, (command,), r),
    ensures
        r is Ok <==> command is Some && command->Some_0@ == "install"@,
        command is None ==> (r matches Err(e) && e is MissingVerb),
        command matches Some(c) ==> (r matches Err(e) ==> e matches InstallError::UnknownCommand(
            name,
        ) && name@ == c@),
{
}

/// A build that worked goes on; one that failed ends with its own code, or with one.
pub proof fn law_failed_build_ends(success: bool, code: Option<i32>, r: Option<i32>)
    requires
        call_ensures(exit_after_build, (success, code), r),
    ensures
        success <==> r is None,
        !success ==> (code matches Some(c) ==> r == Some(c)),
        !success && code is None ==> r == Some(1i32),
{
}

/// A name is set off from its directory by exactly one slash; nothing is put before it if there
/// is no directory.
pub proof fn law_paths_are_joined(dir: Seq<char>, name: Seq<char>)
    ensures
        path_in(Seq::empty(), name) == name,
        path_in(dir + seq!['/'], name) == dir + seq!['/'] + name,
        dir.len() > 0 && dir.last() != '/' ==> path_in(dir, name) == dir + seq!['/'] + name,
{
    reveal_strlit("/");
    assert("/"@ =~= seq!['/']);
    assert(Seq::<char>::empty() + name =~= name);
    assert((dir + seq!['/']).last() == '/');
}

/// Where everything goes, spelled out: the library and the manifest lie below the user's home,
/// and what was built lies below the directory of the build.
pub proof fn law_install_paths(home: &str, r: InstallPaths)
    requires
        home@.len() > 0,
        home@.last() != '/',
        call_ensures(install_paths, (home,), r),
    ensures
        r.library_dir@ == home@ + "/.local/lib/xr_passthrough_layer"@,
        r.library@ == home@ + "/.local/lib/xr_passthrough_layer/liblayer.so"@,
        r.manifest_dir@ == home@ + "/.local/share/openxr/1/api_layers/explicit.d"@,
        r.manifest@ == home@
            + "/.local/share/openxr/1/api_layers/explicit.d/XR_APILAYER_YX_passthrough.json"@,
        r.built_library@ == "target/release/libxr_passthrough_layer.so"@,
{
    reveal_strlit("/");
    reveal_strlit(".local");
    reveal_strlit("lib");
    reveal_strlit("share");
    reveal_strlit("openxr");
    reveal_strlit("1");
    reveal_strlit("api_layers");
    reveal_strlit("explicit.d");
    reveal_strlit("liblayer.so");
    reveal_strlit("xr_passthrough_layer");
    reveal_strlit("XR_APILAYER_YX_passthrough.json");
    reveal_strlit("target");
    reveal_strlit("release");
    reveal_strlit("libxr_passthrough_layer.so");
    reveal_strlit("/.local/lib/xr_passthrough_layer");
    reveal_strlit("/.local/lib/xr_passthrough_layer/liblayer.so");
    reveal_strlit("/.local/share/openxr/1/api_layers/explicit.d");
    reveal_strlit(
        "/.local/share/openxr/1/api_layers/explicit.d/XR_APILAYER_YX_passthrough.json",
    );
    reveal_strlit("target/release/libxr_passthrough_layer.so");
    let h = home@;
    let lib = path_in(path_in(h, ".local"@), "lib"@);
    assert(lib =~= h + "/"@ + ".local"@ + "/"@ + "lib"@);
    assert(r.library_dir@ =~= h + "/.local/lib/xr_passthrough_layer"@);
    assert(r.library@ =~= h + "/.local/lib/xr_passthrough_layer/liblayer.so"@);
    let version = path_in(
        path_in(path_in(path_in(h, ".local"@), "share"@), "openxr"@),
        "1"@,
    );
    assert(version =~= h + "/"@ + ".local"@ + "/"@ + "share"@ + "/"@ + "openxr"@ + "/"@ + "1"@);
    assert(r.manifest_dir@ =~= h + "/.local/share/openxr/1/api_layers/explicit.d"@);
    assert(r.manifest@ =~= h
        + "/.local/share/openxr/1/api_layers/explicit.d/XR_APILAYER_YX_passthrough.json"@);
    let release = path_in("target"@, "release"@);
    assert(release =~= "target"@ + "/"@ + "release"@);
    assert(r.built_library@ =~= "target/release/libxr_passthrough_layer.so"@);
}

/// Only a directory that could not be made stops the installation.
pub proof fn law_directory_may_be_there(outcome: DirOutcome, r: bool)
    requires
        call_ensures(directory_is_there, (outcome,), r),
    ensures
        r <==> outcome is Made || outcome is AlreadyThere,
{
}

/// The manifest says what the layer is called, where its library is, and that it provides one
/// extension.
pub proof fn law_manifest(path: &str, r: Manifest)
    requires
        call_ensures(layer_manifest, (path,), r),
    ensures
        r.file_format_version@ == "1.0.0"@,
        r.api_layer.name@ == "XR_APILAYER_YX_passthrough"@,
        r.api_layer.library_path@ == path@,
        r.api_layer.api_version@ == "1.0"@,
        r.api_layer.implementation_version@ == "1"@,
        r.api_layer.description@ == "Passthrough"@,
        r.api_layer.instance_extensions@.len() == 1,
        r.api_layer.instance_extensions@[0].name@ == "XR_HTC_passthrough"@,
        r.api_layer.instance_extensions@[0].extension_version@ == "1"@,
{
}

} // verus!
