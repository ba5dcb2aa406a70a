//! The table of mounted filesystems, in the format of `/proc/mounts`.
//!
//! Each line of the table describes one mount with fields that whitespace separates:
//! the device, the mount point, the filesystem type, the mount options with commas
//! between them, and two numbers that are of no use here. Empty lines and lines that
//! start with `#` are skipped.

use crate::cgroup::hierarchy::{
    hierarchy_of_mount, CgroupHierarchy, ControllersFile, ControllersFileView, HierarchyView,
};
use crate::text::{
    fields, same_text, leading_whitespace, lines, lines_of, pieces, split_ascii_whitespace, split_on,
    starts_with_char, trim_ascii_start,
};
use vstd::prelude::*;
use vstd::string::StringExecFns;

verus! {

/// A mounted filesystem.
#[derive(Debug, PartialEq, Eq)]
pub struct Mount {
    pub spec: String,
    pub mount_point: String,
    pub fs_type: String,
    pub mount_options: Vec<String>,
}

/// The mathematical value of a [`Mount`].
pub struct MountView {
    pub spec: Seq<char>,
    pub mount_point: Seq<char>,
    pub fs_type: Seq<char>,
    pub mount_options: Seq<Seq<char>>,
}

impl View for Mount {
    type V = MountView;

    open spec fn view(&self) -> MountView {
        MountView {
            spec: self.spec@,
            mount_point: self.mount_point@,
            fs_type: self.fs_type@,
            mount_options: self.mount_options.deep_view(),
        }
    }
}

/// A line of the table that is not a mount.
#[derive(Debug, PartialEq, Eq)]
pub struct ParseError {
    input: String,
}

impl ParseError {
    /// The line that could not be read, without the whitespace that it started with.
    pub closed spec fn spec_input(&self) -> Seq<char> {
        self.input@
    }

    /// The error of the line `input`.
    pub fn new(input: String) -> (e: Self)
        ensures
            e.spec_input() == input@,
    {
        ParseError { input }
    }

    /// The line that could not be read.
    pub fn input(&self) -> (s: &String)
        ensures
            s@ == self.spec_input(),
    {
        &self.input
    }

    /// The error as a sentence.
    pub fn message(&self) -> (s: String)
        ensures
            s@ == "invalid mount line: "@ + self.spec_input(),
    {
        String::from_str("invalid mount line: ").concat(self.input.as_str())
    }
}

/// The mount that a line describes: its first four fields.
pub open spec fn parsed_mount(line: Seq<char>) -> Option<MountView> {
    let f = fields(line);
    if f.len() < 4 {
        None
    } else {
        Some(
            MountView {
                spec: f[0],
                mount_point: f[1],
                fs_type: f[2],
                mount_options: pieces(f[3], ','),
            },
        )
    }
}

/// What reading the lines of a table gives: the mounts up to the first line that is
/// not one, and that line if there is one.
pub open spec fn parsed_lines(lines: Seq<Seq<char>>) -> (Seq<MountView>, Option<Seq<char>>)
    decreases lines.len(),
{
    if lines.len() == 0 {
        (Seq::empty(), None)
    } else {
        let (mounts, failed) = parsed_lines(lines.drop_last());
        let line = lines.last().skip(leading_whitespace(lines.last()) as int);
        if failed is Some || line.len() == 0 || line[0] == '#' {
            (mounts, failed)
        } else {
            match parsed_mount(line) {
                Some(m) => (mounts.push(m), None),
                None => (mounts, Some(line)),
            }
        }
    }
}

/// The mounts of a sequence, each by its mathematical value.
pub open spec fn mount_views(mounts: Seq<Mount>) -> Seq<MountView> {
    Seq::new(mounts.len(), |i: int| mounts[i]@)
}

impl Mount {
    /// Attempts to parse a line of `/proc/mounts`.
    /// Returns `None` if it fails.
    pub fn parse(line: &str) -> (r: Option<Self>)
        ensures
            r.is_some() == parsed_mount(line@).is_some(),
            r.is_some() ==> r.unwrap()@ == parsed_mount(line@).unwrap(),
    {
        let mut f = split_ascii_whitespace(line);
        if f.len() < 4 {
            return None;
        }
        let ghost all = f.deep_view();
        f.truncate(4);
        let options = f.pop().unwrap();
        let fs_type = f.pop().unwrap();
        let mount_point = f.pop().unwrap();
        let spec = f.pop().unwrap();
        proof {
            assert(spec@ == all[0]);
            assert(mount_point@ == all[1]);
            assert(fs_type@ == all[2]);
            assert(options@ == all[3]);
        }
        let mount_options = split_on(options.as_str(), ',');
        Some(Mount { spec, mount_point, fs_type, mount_options })
    }

    /// Whether the mount is a unified hierarchy of control groups (version 2).
    pub fn is_cgroup2(&self) -> (b: bool)
        ensures
            b == (self.fs_type@ == "cgroup2"@),
    {
        same_text(self.fs_type.as_str(), "cgroup2")
    }
}

/// Reads a table of mounts and appends the mounts to `buf`, up to the first line that
/// is not a mount, which is the error.
pub fn parse_proc_mounts(content: &str, buf: &mut Vec<Mount>) -> (r: Result<(), ParseError>)
    ensures
        ({
            let (mounts, failed) = parsed_lines(lines_of(content@));
            &&& mount_views(final(buf)@) == mount_views(old(buf)@) + mounts
            &&& r.is_ok() == failed.is_none()
            &&& r matches Err(e) ==> e.spec_input() == failed.unwrap()
        }),
{
    let all = lines(content);
    let ghost texts = all.deep_view();
    let ghost before = mount_views(buf@);
    let mut i: usize = 0;
    assert(texts.take(0) =~= Seq::<Seq<char>>::empty());
    assert(mount_views(buf@) =~= before + Seq::<MountView>::empty());
    while i < all.len()
        invariant
            i <= all.len(),
            texts == all.deep_view(),
            texts == lines_of(content@),
            before == mount_views(old(buf)@),
            parsed_lines(texts.take(i as int)).1.is_none(),
            mount_views(buf@) == before + parsed_lines(texts.take(i as int)).0,
        decreases all.len() - i,
    {
        proof {
            assert(texts.take(i + 1).drop_last() =~= texts.take(i as int));
            assert(texts.take(i + 1).last() == all[i as int]@);
        }
        let line = trim_ascii_start(all[i].as_str());
        if !line.is_empty() && !starts_with_char(line, '#') {
            match Mount::parse(line) {
                Some(m) => {
                    let ghost earlier = mount_views(buf@);
                    buf.push(m);
                    assert(mount_views(buf@) =~= earlier.push(m@));
                    assert(mount_views(buf@) =~= before + parsed_lines(texts.take(i + 1)).0);
                },
                None => {
                    proof {
                        assert(parsed_lines(texts.take(i + 1)) == (
                            parsed_lines(texts.take(i as int)).0,
                            Some(line@),
                        ));
                        lemma_parsed_lines_failed(texts, i + 1);
                    }
                    return Err(ParseError { input: line.to_owned() });
                },
            }
        }
        i = i + 1;
    }
    assert(texts.take(all.len() as int) =~= texts);
    Ok(())
}

/// Once a line has failed, the lines after it change nothing.
proof fn lemma_parsed_lines_failed(lines: Seq<Seq<char>>, i: int)
    requires
        0 <= i <= lines.len(),
        parsed_lines(lines.take(i)).1 is Some,
    ensures
        parsed_lines(lines) == parsed_lines(lines.take(i)),
    decreases lines.len() - i,
{
    if i < lines.len() {
        assert(lines.take(i + 1).drop_last() =~= lines.take(i));
        lemma_parsed_lines_failed(lines, i + 1);
    } else {
        assert(lines.take(i) =~= lines);
    }
}

/// The file that belongs to the mount at position `i`: that of `files`, or none.
pub open spec fn file_for(files: Seq<ControllersFileView>, i: int) -> ControllersFileView {
    if 0 <= i < files.len() {
        files[i]
    } else {
        ControllersFileView::NotFound
    }
}

/// The hierarchies of the mounts that are filesystems of control groups, in the order
/// of the mounts.
pub open spec fn extracted(mounts: Seq<MountView>, files: Seq<ControllersFileView>) -> Seq<
    HierarchyView,
>
    decreases mounts.len(),
{
    if mounts.len() == 0 {
        Seq::empty()
    } else {
        let rest = extracted(mounts.drop_last(), files);
        match hierarchy_of_mount(mounts.last(), file_for(files, mounts.len() - 1)) {
            Ok(h) => rest.push(h),
            Err(_) => rest,
        }
    }
}

/// The files of a sequence, each by its mathematical value.
pub open spec fn file_views(files: Seq<ControllersFile>) -> Seq<ControllersFileView> {
    Seq::new(files.len(), |i: int| files[i]@)
}

/// The hierarchies of a sequence, each by its mathematical value.
pub open spec fn hierarchy_views(hierarchies: Seq<CgroupHierarchy>) -> Seq<HierarchyView> {
    Seq::new(hierarchies.len(), |i: int| hierarchies[i]@)
}

/// For each mount that corresponds to a cgroup filesystem (v1 or v2), builds a
/// [`CgroupHierarchy`]. `v2_files[i]` is what reading the file `cgroup.controllers` at
/// the mount point of `mounts[i]` gave; where it is missing the file counts as not
/// found. A mount whose hierarchy cannot be built is left out.
pub fn extract_cgroup_hierarchies(mounts: &[Mount], v2_files: &[ControllersFile]) -> (r: Vec<
    CgroupHierarchy,
>)
    ensures
        hierarchy_views(r@) == extracted(mount_views(mounts@), file_views(v2_files@)),
{
    let ghost ms = mount_views(mounts@);
    let ghost fs = file_views(v2_files@);
    let mut out: Vec<CgroupHierarchy> = Vec::new();
    let missing = ControllersFile::NotFound;
    let mut i: usize = 0;
    assert(ms.take(0) =~= Seq::<MountView>::empty());
    assert(hierarchy_views(out@) =~= Seq::<HierarchyView>::empty());
    while i < mounts.len()
        invariant
            i <= mounts.len(),
            ms == mount_views(mounts@),
            fs == file_views(v2_files@),
            missing@ == ControllersFileView::NotFound,
            hierarchy_views(out@) == extracted(ms.take(i as int), fs),
        decreases mounts.len() - i,
    {
        proof {
            assert(ms.take(i + 1).drop_last() =~= ms.take(i as int));
            assert(ms.take(i + 1).last() == mounts[i as int]@);
        }
        let file = if i < v2_files.len() {
            &v2_files[i]
        } else {
            &missing
        };
        assert(file@ == file_for(fs, i as int));
        match CgroupHierarchy::from_mount(&mounts[i], file) {
            Ok(h) => {
                let ghost earlier = hierarchy_views(out@);
                out.push(h);
                assert(hierarchy_views(out@) =~= earlier.push(h@));
            },
            Err(_) => {},
        }
        i = i + 1;
    }
    assert(ms.take(mounts.len() as int) =~= ms);
    out
}

} // verus!
