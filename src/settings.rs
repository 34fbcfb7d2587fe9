//! What to build and where to watch, and the messages exchanged with a
//! remote hot-reload client.
use vstd::prelude::*;

use crate::target::Target;

verus! {

/// Which unit of the workspace a build selects.
#[derive(Debug, Clone, Hash, PartialEq, Eq)]
pub enum PackageOrExample {
    DefaulPackage,
    Package(String),
    Example(String),
}

impl Default for PackageOrExample {
    fn default() -> (r: PackageOrExample)
        ensures
            r is DefaulPackage,
    {
        PackageOrExample::DefaulPackage
    }
}

/// An immutable description of one buildable unit. Paths are UTF-8 text.
#[derive(Debug, Clone)]
pub struct TargetBuildSettings {
    pub package_or_example: PackageOrExample,
    pub features: Vec<String>,
    pub asset_folders: Vec<String>,
    pub code_watch_folders: Vec<String>,
}

impl Default for TargetBuildSettings {
    fn default() -> (r: TargetBuildSettings)
        ensures
            r.package_or_example is DefaulPackage,
            r.features@.len() == 0,
            r.asset_folders@.len() == 0,
            r.code_watch_folders@.len() == 0,
    {
        TargetBuildSettings {
            package_or_example: PackageOrExample::DefaulPackage,
            features: Vec::new(),
            asset_folders: Vec::new(),
            code_watch_folders: Vec::new(),
        }
    }
}

/// Options a host gives when it asks for hot reloading.
#[derive(Debug, Clone)]
pub struct HotReloadOptions {
    pub manifest_path: Option<String>,
    pub package: Option<String>,
    pub example: Option<String>,
    pub lib_name: Option<String>,
    pub watch_folders: Vec<String>,
    pub target_folder: Option<String>,
    pub features: Vec<String>,
    pub build_target: Option<Target>,
}

impl Default for HotReloadOptions {
    fn default() -> (r: HotReloadOptions)
        ensures
            r.manifest_path is None,
            r.package is None,
            r.example is None,
            r.lib_name is None,
            r.watch_folders@.len() == 0,
            r.target_folder is None,
            r.features@.len() == 0,
            r.build_target is None,
    {
        HotReloadOptions {
            manifest_path: None,
            package: None,
            example: None,
            lib_name: None,
            watch_folders: Vec::new(),
            target_folder: None,
            features: Vec::new(),
            build_target: None,
        }
    }
}

/// The location of the library that a host loads.
#[derive(Debug, Clone)]
pub struct LibPathSet {
    path: String,
}

impl View for LibPathSet {
    type V = Seq<char>;

    closed spec fn view(&self) -> Seq<char> {
        self.path@
    }
}

impl LibPathSet {
    pub fn new(path: String) -> (r: LibPathSet)
        ensures
            r@ == path@,
    {
        LibPathSet { path }
    }

    pub fn library_path(&self) -> (r: String)
        ensures
            r@ == self@,
    {
        self.path.clone()
    }
}

/// Messages sent to a remote hot-reload client. Paths are logical relative
/// paths; hashes are 32-byte content digests; `id` identifies the session.
#[derive(Debug, Clone)]
pub enum HotReloadMessage {
    InitialState {
        id: u128,
        root_lib: Option<String>,
        libraries: Vec<(String, [u8; 32])>,
        assets: Vec<(String, [u8; 32])>,
    },
    RootLibPath(String),
    UpdatedLibs(String, [u8; 32]),
    UpdatedAssets(String, [u8; 32]),
    KeepAlive,
}

} // verus!
