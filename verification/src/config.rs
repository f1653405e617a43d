//! Where layers are placed, and the record kept of each mounted instance.

use vstd::prelude::*;
use vstd::string::*;
use vstd::utf8::*;

use crate::fs_path::{path_view, FsPath};
use crate::text::string_view;

verus! {

/// The directories and the state file of a manager.
#[derive(Debug)]
pub struct AntaresPaths {
    /// Root directory of the per-job upper layers.
    pub upper_root: FsPath,
    /// Root directory of the per-job CL layers.
    pub cl_root: FsPath,
    /// Base directory of the mountpoints handed to callers.
    pub mount_root: FsPath,
    /// The file that keeps the mount state as TOML.
    pub state_file: FsPath,
}

/// The model of `AntaresPaths`.
#[verifier::ext_equal]
pub struct PathsView {
    pub upper_root: Seq<u8>,
    pub cl_root: Seq<u8>,
    pub mount_root: Seq<u8>,
    pub state_file: Seq<u8>,
}

impl View for AntaresPaths {
    type V = PathsView;

    open spec fn view(&self) -> PathsView {
        PathsView {
            upper_root: self.upper_root@,
            cl_root: self.cl_root@,
            mount_root: self.mount_root@,
            state_file: self.state_file@,
        }
    }
}

impl AntaresPaths {
    /// Puts the four paths together.
    pub fn new(
        upper_root: FsPath,
        cl_root: FsPath,
        mount_root: FsPath,
        state_file: FsPath,
    ) -> (res: AntaresPaths)
        ensures
            res.upper_root == upper_root,
            res.cl_root == cl_root,
            res.mount_root == mount_root,
            res.state_file == state_file,
    {
        AntaresPaths { upper_root, cl_root, mount_root, state_file }
    }

    /// Builds the paths from the values of the global configuration.
    pub fn from_global_config(
        antares_upper_root: &str,
        antares_cl_root: &str,
        antares_mount_root: &str,
        antares_state_file: &str,
    ) -> (res: AntaresPaths)
        ensures
            res.upper_root@ == encode_utf8(antares_upper_root@),
            res.cl_root@ == encode_utf8(antares_cl_root@),
            res.mount_root@ == encode_utf8(antares_mount_root@),
            res.state_file@ == encode_utf8(antares_state_file@),
    {
        AntaresPaths {
            upper_root: FsPath::from_text(antares_upper_root),
            cl_root: FsPath::from_text(antares_cl_root),
            mount_root: FsPath::from_text(antares_mount_root),
            state_file: FsPath::from_text(antares_state_file),
        }
    }
}

impl Clone for AntaresPaths {
    fn clone(&self) -> (res: AntaresPaths)
        ensures
            res@ == self@,
    {
        AntaresPaths {
            upper_root: self.upper_root.clone(),
            cl_root: self.cl_root.clone(),
            mount_root: self.mount_root.clone(),
            state_file: self.state_file.clone(),
        }
    }
}

/// The record of a mounted instance.
#[derive(Debug)]
pub struct AntaresConfig {
    /// The job that the instance was mounted for.
    pub job_id: String,
    /// The repository path that is mounted.
    pub source_path: String,
    /// Where it is mounted.
    pub mountpoint: FsPath,
    /// The identifier of the upper layer.
    pub upper_id: String,
    /// The directory of the upper layer.
    pub upper_dir: FsPath,
    /// The directory of the CL layer, where one was asked for.
    pub cl_dir: Option<FsPath>,
    /// The identifier of the CL layer, where one was asked for.
    pub cl_id: Option<String>,
}

/// The model of `AntaresConfig`.
#[verifier::ext_equal]
pub struct ConfigView {
    pub job_id: Seq<char>,
    pub source_path: Seq<char>,
    pub mountpoint: Seq<u8>,
    pub upper_id: Seq<char>,
    pub upper_dir: Seq<u8>,
    pub cl_dir: Option<Seq<u8>>,
    pub cl_id: Option<Seq<char>>,
}

impl View for AntaresConfig {
    type V = ConfigView;

    open spec fn view(&self) -> ConfigView {
        ConfigView {
            job_id: self.job_id@,
            source_path: self.source_path@,
            mountpoint: self.mountpoint@,
            upper_id: self.upper_id@,
            upper_dir: self.upper_dir@,
            cl_dir: path_view(self.cl_dir),
            cl_id: string_view(self.cl_id),
        }
    }
}

impl Clone for AntaresConfig {
    fn clone(&self) -> (res: AntaresConfig)
        ensures
            res@ == self@,
    {
        AntaresConfig {
            job_id: self.job_id.clone(),
            source_path: self.source_path.clone(),
            mountpoint: self.mountpoint.clone(),
            upper_id: self.upper_id.clone(),
            upper_dir: self.upper_dir.clone(),
            cl_dir: self.cl_dir.clone(),
            cl_id: self.cl_id.clone(),
        }
    }
}

/// What the state file holds: the tracked instances, in no particular order.
#[derive(Debug)]
pub struct AntaresState {
    pub mounts: Vec<AntaresConfig>,
}

impl View for AntaresState {
    type V = Seq<ConfigView>;

    open spec fn view(&self) -> Seq<ConfigView> {
        self.mounts@.map_values(|config: AntaresConfig| config@)
    }
}

impl Default for AntaresState {
    fn default() -> (res: AntaresState)
        ensures
            res@ == Seq::<ConfigView>::empty(),
    {
        let res = AntaresState { mounts: Vec::new() };
        assert(res@ =~= Seq::empty());
        res
    }
}

} // verus!
