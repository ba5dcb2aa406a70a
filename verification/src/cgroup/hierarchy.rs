//! Hierarchies of control groups, and the groups in them.
//!
//! In version 1 of control groups each resource controller, or each set of controllers
//! mounted together, has a hierarchy of its own, such as `/sys/fs/cgroup/cpu,cpuacct`.
//! In version 2 there is one unified hierarchy, such as `/sys/fs/cgroup`, and the file
//! `cgroup.controllers` at its root lists the controllers.
//!
//! Nothing here reads the filesystem: what was read is handed in.

use crate::cgroup::mount::{Mount, MountView};
use crate::text::{pieces, same_text, split_on};
use std::path::Path;
use vstd::prelude::*;

verus! {

/// The version of control groups.
#[derive(Debug, Clone, PartialEq, Eq, Copy, Structural)]
pub enum CgroupVersion {
    V1,
    V2,
}

/// What reading the file `cgroup.controllers` at the root of a hierarchy gave.
#[derive(Debug)]
pub enum ControllersFile {
    /// The content of the file.
    Content(String),
    /// There is no such file.
    NotFound,
    /// The file is there and cannot be read.
    Unreadable,
}

/// The mathematical value of a [`ControllersFile`].
pub enum ControllersFileView {
    Content(Seq<char>),
    NotFound,
    Unreadable,
}

impl View for ControllersFile {
    type V = ControllersFileView;

    open spec fn view(&self) -> ControllersFileView {
        match *self {
            ControllersFile::Content(s) => ControllersFileView::Content(s@),
            ControllersFile::NotFound => ControllersFileView::NotFound,
            ControllersFile::Unreadable => ControllersFileView::Unreadable,
        }
    }
}

/// Whether the file `release_agent` exists at the root of a hierarchy. It exists only
/// at the root of a hierarchy of version 1.
#[derive(Debug, Clone, PartialEq, Eq, Copy, Structural)]
pub enum ReleaseAgent {
    Present,
    Absent,
    /// Whether the file exists could not be found out.
    Unknown,
}

/// Why the controllers of a hierarchy are not known.
#[derive(Debug, Clone, PartialEq, Eq, Copy, Structural)]
pub enum ParseError {
    /// The hierarchy is not of the version that was tried.
    WrongVersion,
    /// The filesystem could not be read.
    Other,
}

/// Why there is no hierarchy.
#[derive(Debug, Clone, PartialEq, Eq, Copy, Structural)]
pub enum HierarchyError {
    /// The mount is not a filesystem of control groups.
    NotCgroupFs,
    /// The directory is neither a hierarchy of version 1 nor one of version 2.
    NeitherVersion,
    /// The controllers could not be read.
    Controllers(ParseError),
}

/// The last component of a path, as `std::path::Path::file_name` gives it.
pub uninterp spec fn path_file_name(path: Seq<char>) -> Option<Seq<char>>;

/// A path without the leading components `base`, as `std::path::Path::strip_prefix`
/// gives it; `None` where `base` is not a prefix of the path.
pub uninterp spec fn path_without_prefix(path: Seq<char>, base: Seq<char>) -> Option<Seq<char>>;

/// Calls `std::path::Path::file_name`. The result is a function of the path alone;
/// nothing else is claimed of it.
#[verifier::external_body]
fn file_name_of(path: &str) -> (r: Option<String>)
    ensures
        r.deep_view() == path_file_name(path@),
{
    Path::new(path).file_name().map(Path::new).and_then(Path::to_str).map(String::from)
}

/// Calls `std::path::Path::strip_prefix`. The result is a function of the two paths
/// alone; nothing else is claimed of it.
#[verifier::external_body]
fn strip_prefix_of(path: &str, base: &str) -> (r: Option<String>)
    ensures
        r.deep_view() == path_without_prefix(path@, base@),
{
    Path::new(path).strip_prefix(base).ok().and_then(Path::to_str).map(String::from)
}

/// A hierarchy of control groups.
#[derive(Debug)]
pub struct CgroupHierarchy {
    root: String,
    version: CgroupVersion,
    available_controllers: Vec<String>,
}

/// The mathematical value of a [`CgroupHierarchy`].
pub struct HierarchyView {
    pub root: Seq<char>,
    pub version: CgroupVersion,
    pub available_controllers: Seq<Seq<char>>,
}

impl View for CgroupHierarchy {
    type V = HierarchyView;

    closed spec fn view(&self) -> HierarchyView {
        HierarchyView {
            root: self.root@,
            version: self.version,
            available_controllers: self.available_controllers.deep_view(),
        }
    }
}

/// The controllers that the file `cgroup.controllers` lists: the pieces of its content
/// between spaces.
pub open spec fn v2_controllers(file: ControllersFileView) -> Result<Seq<Seq<char>>, ParseError> {
    match file {
        ControllersFileView::Content(s) => Ok(pieces(s, ' ')),
        ControllersFileView::NotFound => Err(ParseError::WrongVersion),
        ControllersFileView::Unreadable => Err(ParseError::Other),
    }
}

/// The controllers of a hierarchy of version 1, guessed from the name of its root
/// directory, which lists them with commas.
pub open spec fn v1_controllers(root: Seq<char>, release_agent: ReleaseAgent) -> Result<
    Seq<Seq<char>>,
    ParseError,
> {
    match release_agent {
        ReleaseAgent::Unknown => Err(ParseError::Other),
        ReleaseAgent::Absent => Err(ParseError::WrongVersion),
        ReleaseAgent::Present => match path_file_name(root) {
            None => Err(ParseError::WrongVersion),
            Some(name) => Ok(pieces(name, ',')),
        },
    }
}

/// The hierarchy that a mount is the root of.
pub open spec fn hierarchy_of_mount(m: MountView, file: ControllersFileView) -> Result<
    HierarchyView,
    HierarchyError,
> {
    if m.fs_type == "cgroup2"@ {
        match v2_controllers(file) {
            Ok(c) => Ok(
                HierarchyView {
                    root: m.mount_point,
                    version: CgroupVersion::V2,
                    available_controllers: c,
                },
            ),
            Err(e) => Err(HierarchyError::Controllers(e)),
        }
    } else if m.fs_type == "cgroup"@ {
        Ok(
            HierarchyView {
                root: m.mount_point,
                version: CgroupVersion::V1,
                available_controllers: m.mount_options,
            },
        )
    } else {
        Err(HierarchyError::NotCgroupFs)
    }
}

/// The hierarchy whose root is the directory `path`.
pub open spec fn hierarchy_at(
    path: Seq<char>,
    file: ControllersFileView,
    release_agent: ReleaseAgent,
) -> Result<HierarchyView, HierarchyError> {
    match v2_controllers(file) {
        Ok(c) => Ok(
            HierarchyView { root: path, version: CgroupVersion::V2, available_controllers: c },
        ),
        Err(ParseError::WrongVersion) => match v1_controllers(path, release_agent) {
            Ok(c) => Ok(
                HierarchyView { root: path, version: CgroupVersion::V1, available_controllers: c },
            ),
            Err(ParseError::WrongVersion) => Err(HierarchyError::NeitherVersion),
            Err(ParseError::Other) => Err(HierarchyError::Controllers(ParseError::Other)),
        },
        Err(ParseError::Other) => Err(HierarchyError::Controllers(ParseError::Other)),
    }
}

/// Reads the controllers of a hierarchy of version 2 from what its file
/// `cgroup.controllers` gave.
pub fn parse_v2_controllers(file: &ControllersFile) -> (r: Result<Vec<String>, ParseError>)
    ensures
        r.is_ok() == v2_controllers(file@).is_ok(),
        r matches Ok(c) ==> c.deep_view() == v2_controllers(file@).unwrap(),
        r matches Err(e) ==> v2_controllers(file@) == Err::<Seq<Seq<char>>, ParseError>(e),
{
    match file {
        ControllersFile::Content(content) => Ok(split_on(content.as_str(), ' ')),
        ControllersFile::NotFound => Err(ParseError::WrongVersion),
        ControllersFile::Unreadable => Err(ParseError::Other),
    }
}

/// Guesses the controllers of a hierarchy of version 1 from the name of its root.
/// This works for regular hierarchies, not for named ones.
pub fn guess_v1_controllers(cgroup_root: &str, release_agent: ReleaseAgent) -> (r: Result<
    Vec<String>,
    ParseError,
>)
    ensures
        r.is_ok() == v1_controllers(cgroup_root@, release_agent).is_ok(),
        r matches Ok(c) ==> c.deep_view() == v1_controllers(cgroup_root@, release_agent).unwrap(),
        r matches Err(e) ==> v1_controllers(cgroup_root@, release_agent) == Err::<
            Seq<Seq<char>>,
            ParseError,
        >(e),
{
    match release_agent {
        ReleaseAgent::Unknown => Err(ParseError::Other),
        ReleaseAgent::Absent => Err(ParseError::WrongVersion),
        ReleaseAgent::Present => controllers_in_name(file_name_of(cgroup_root)),
    }
}

/// The controllers that the name of a root directory lists.
pub fn controllers_in_name(name: Option<String>) -> (r: Result<Vec<String>, ParseError>)
    ensures
        match name {
            None => r == Err::<Vec<String>, ParseError>(ParseError::WrongVersion),
            Some(n) => r.is_ok() && r.unwrap().deep_view() == pieces(n@, ','),
        },
{
    match name {
        None => Err(ParseError::WrongVersion),
        Some(n) => Ok(split_on(n.as_str(), ',')),
    }
}

impl CgroupHierarchy {
    /// The hierarchy that the mount `m` is the root of. `v2_file` is what reading the
    /// file `cgroup.controllers` at the mount point gave; it matters for a mount of
    /// type `cgroup2` only.
    pub fn from_mount(m: &Mount, v2_file: &ControllersFile) -> (r: Result<Self, HierarchyError>)
        ensures
            r.is_ok() == hierarchy_of_mount(m@, v2_file@).is_ok(),
            r matches Ok(h) ==> h@ == hierarchy_of_mount(m@, v2_file@).unwrap(),
            r matches Err(e) ==> hierarchy_of_mount(m@, v2_file@) == Err::<
                HierarchyView,
                HierarchyError,
            >(e),
    {
        if same_text(m.fs_type.as_str(), "cgroup2") {
            match parse_v2_controllers(v2_file) {
                Ok(available_controllers) => Ok(
                    CgroupHierarchy {
                        root: m.mount_point.clone(),
                        version: CgroupVersion::V2,
                        available_controllers,
                    },
                ),
                Err(e) => Err(HierarchyError::Controllers(e)),
            }
        } else if same_text(m.fs_type.as_str(), "cgroup") {
            let available_controllers = copy_of(&m.mount_options);
            Ok(
                CgroupHierarchy {
                    root: m.mount_point.clone(),
                    version: CgroupVersion::V1,
                    available_controllers,
                },
            )
        } else {
            Err(HierarchyError::NotCgroupFs)
        }
    }

    /// The hierarchy whose root is the directory `path`. `v2_file` is what reading the
    /// file `cgroup.controllers` in it gave, and `release_agent` whether it holds a
    /// file `release_agent`, which matters only where the former is not found.
    pub fn new_at(path: String, v2_file: &ControllersFile, release_agent: ReleaseAgent) -> (r:
        Result<Self, HierarchyError>)
        ensures
            r.is_ok() == hierarchy_at(path@, v2_file@, release_agent).is_ok(),
            r matches Ok(h) ==> h@ == hierarchy_at(path@, v2_file@, release_agent).unwrap(),
            r matches Err(e) ==> hierarchy_at(path@, v2_file@, release_agent) == Err::<
                HierarchyView,
                HierarchyError,
            >(e),
    {
        let (version, available_controllers) = match parse_v2_controllers(v2_file) {
            Ok(controllers) => (CgroupVersion::V2, controllers),
            Err(ParseError::WrongVersion) => {
                match guess_v1_controllers(path.as_str(), release_agent) {
                    Ok(controllers) => (CgroupVersion::V1, controllers),
                    Err(ParseError::WrongVersion) => {
                        return Err(HierarchyError::NeitherVersion);
                    },
                    Err(ParseError::Other) => {
                        return Err(HierarchyError::Controllers(ParseError::Other));
                    },
                }
            },
            Err(ParseError::Other) => {
                return Err(HierarchyError::Controllers(ParseError::Other));
            },
        };
        Ok(CgroupHierarchy { root: path, version, available_controllers })
    }

    /// The root path of this hierarchy.
    pub fn root(&self) -> (r: &str)
        ensures
            r@ == self@.root,
    {
        self.root.as_str()
    }

    /// The version of cgroups.
    pub fn version(&self) -> (v: CgroupVersion)
        ensures
            v == self@.version,
    {
        self.version
    }

    /// The controllers that the hierarchy offers.
    pub fn available_controllers(&self) -> (c: &[String])
        ensures
            c@.len() == self@.available_controllers.len(),
            forall|i: int| 0 <= i < c@.len() ==> (#[trigger] c@[i])@ == self@.available_controllers[i],
    {
        self.available_controllers.as_slice()
    }

    /// A copy with the same value.
    pub fn duplicate(&self) -> (h: Self)
        ensures
            h@ == self@,
    {
        CgroupHierarchy {
            root: self.root.clone(),
            version: self.version,
            available_controllers: copy_of(&self.available_controllers),
        }
    }
}

/// A copy of a list of texts.
fn copy_of(texts: &Vec<String>) -> (r: Vec<String>)
    ensures
        r.deep_view() == texts.deep_view(),
{
    let mut r: Vec<String> = Vec::new();
    let mut i: usize = 0;
    while i < texts.len()
        invariant
            i <= texts.len(),
            r.len() == i,
            forall|j: int| 0 <= j < i ==> r[j]@ == texts[j]@,
        decreases texts.len() - i,
    {
        r.push(texts[i].clone());
        i = i + 1;
    }
    assert(r.deep_view() =~= texts.deep_view());
    r
}

/// A control group.
#[derive(Debug)]
pub struct Cgroup<'h> {
    /// Full path to the cgroup.
    sysfs_path: String,
    /// Path in the hierarchy of cgroups.
    relative_path: String,
    hierarchy: &'h CgroupHierarchy,
}

/// The mathematical value of a [`Cgroup`].
pub struct CgroupView {
    pub fs_path: Seq<char>,
    pub cgroup_path: Seq<char>,
    pub hierarchy: HierarchyView,
}

impl<'h> View for Cgroup<'h> {
    type V = CgroupView;

    closed spec fn view(&self) -> CgroupView {
        CgroupView {
            fs_path: self.sysfs_path@,
            cgroup_path: self.relative_path@,
            hierarchy: self.hierarchy@,
        }
    }
}

impl<'h> Cgroup<'h> {
    /// The group at `sysfs_path`, which lies in `hierarchy`.
    pub fn new(hierarchy: &'h CgroupHierarchy, sysfs_path: String) -> (c: Self)
        requires
            path_without_prefix(sysfs_path@, hierarchy@.root) is Some,
        ensures
            c@ == (CgroupView {
                fs_path: sysfs_path@,
                cgroup_path: path_without_prefix(sysfs_path@, hierarchy@.root).unwrap(),
                hierarchy: hierarchy@,
            }),
    {
        let relative_path = strip_prefix_of(sysfs_path.as_str(), hierarchy.root.as_str()).unwrap();
        Cgroup { sysfs_path, relative_path, hierarchy }
    }

    /// The group at `sysfs_path` if that path lies in `hierarchy`, else `None`.
    pub fn try_new(hierarchy: &'h CgroupHierarchy, sysfs_path: String) -> (r: Option<Self>)
        ensures
            r.is_some() == path_without_prefix(sysfs_path@, hierarchy@.root).is_some(),
            r matches Some(c) ==> c@ == (CgroupView {
                fs_path: sysfs_path@,
                cgroup_path: path_without_prefix(sysfs_path@, hierarchy@.root).unwrap(),
                hierarchy: hierarchy@,
            }),
    {
        if Cgroup::lies_in(hierarchy, sysfs_path.as_str()) {
            Some(Cgroup::new(hierarchy, sysfs_path))
        } else {
            None
        }
    }

    /// Whether `sysfs_path` lies in `hierarchy`.
    pub fn lies_in(hierarchy: &CgroupHierarchy, sysfs_path: &str) -> (b: bool)
        ensures
            b == path_without_prefix(sysfs_path@, hierarchy@.root).is_some(),
    {
        strip_prefix_of(sysfs_path, hierarchy.root.as_str()).is_some()
    }

    /// The full path of the group in the filesystem.
    pub fn fs_path(&self) -> (p: &str)
        ensures
            p@ == self@.fs_path,
    {
        self.sysfs_path.as_str()
    }

    /// The path of the group in its hierarchy.
    pub fn cgroup_path(&self) -> (p: &str)
        ensures
            p@ == self@.cgroup_path,
    {
        self.relative_path.as_str()
    }

    /// The hierarchy that the group lies in.
    pub fn hierarchy(&self) -> (h: &CgroupHierarchy)
        ensures
            h@ == self@.hierarchy,
    {
        self.hierarchy
    }
}

} // verus!
