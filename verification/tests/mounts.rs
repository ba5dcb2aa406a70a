use alumet::cgroup::hierarchy::{
    Cgroup, CgroupHierarchy, CgroupVersion, ControllersFile, HierarchyError, ReleaseAgent,
};
use alumet::cgroup::mount::{extract_cgroup_hierarchies, parse_proc_mounts, Mount};

fn vec_str(values: &[&str]) -> Vec<String> {
    values.into_iter().map(|s| s.to_string()).collect()
}

#[test]
fn parsing() {
    let content = "
sysfs /sys sysfs rw,nosuid,nodev,noexec,relatime 0 0
tmpfs /run tmpfs rw,nosuid,nodev,noexec,relatime,size=1599352k,mode=755,inode64 0 0
cgroup2 /sys/fs/cgroup cgroup2 rw,nosuid,nodev,noexec,relatime,nsdelegate,memory_recursiveprot 0 0
/dev/nvme0n1p1 /boot/efi vfat rw,relatime,errors=remount-ro 0 0";
    let mut mounts = Vec::new();
    parse_proc_mounts(&content, &mut mounts).unwrap();

    let expected = vec![
        Mount {
            spec: String::from("sysfs"),
            mount_point: String::from("/sys"),
            fs_type: String::from("sysfs"),
            mount_options: vec_str(&["rw", "nosuid", "nodev", "noexec", "relatime"]),
        },
        Mount {
            spec: String::from("tmpfs"),
            mount_point: String::from("/run"),
            fs_type: String::from("tmpfs"),
            mount_options: vec_str(&[
                "rw",
                "nosuid",
                "nodev",
                "noexec",
                "relatime",
                "size=1599352k",
                "mode=755",
                "inode64",
            ]),
        },
        Mount {
            spec: String::from("cgroup2"),
            mount_point: String::from("/sys/fs/cgroup"),
            fs_type: String::from("cgroup2"),
            mount_options: vec_str(&[
                "rw",
                "nosuid",
                "nodev",
                "noexec",
                "relatime",
                "nsdelegate",
                "memory_recursiveprot",
            ]),
        },
        Mount {
            spec: String::from("/dev/nvme0n1p1"),
            mount_point: String::from("/boot/efi"),
            fs_type: String::from("vfat"),
            mount_options: vec_str(&["rw", "relatime", "errors=remount-ro"]),
        },
    ];
    assert_eq!(expected, mounts);
}

#[test]
fn parsing_error() {
    let mut mounts = Vec::new();
    parse_proc_mounts("badbad", &mut mounts).unwrap_err();
    parse_proc_mounts("croup2 /sys/fs/cgroup", &mut mounts).unwrap_err();
}

#[test]
fn parsing_comments() {
    let mut mounts = Vec::new();
    parse_proc_mounts("\n# badbad\n", &mut mounts).unwrap();
}

#[test]
fn parsing_error_keeps_the_line_and_the_mounts_before_it() {
    let mut mounts = Vec::new();
    let e = parse_proc_mounts("a /a ext4 rw 0 0\r\n   \t bad line \nb /b ext4 ro 0 0", &mut mounts)
        .unwrap_err();
    assert_eq!(e.input(), "bad line ");
    assert_eq!(e.message(), "invalid mount line: bad line ");
    assert_eq!(e, alumet::cgroup::mount::ParseError::new(String::from("bad line ")));
    assert_eq!(mounts.len(), 1);
    assert_eq!(mounts[0].mount_point, "/a");
    assert_eq!(mounts[0].mount_options, vec_str(&["rw"]));
}

#[test]
fn mount_parse_fields() {
    assert!(Mount::parse("a b c").is_none());
    assert!(Mount::parse("").is_none());
    let m = Mount::parse("  dev\t/mnt   xfs  rw,,noatime, 1 2 3").unwrap();
    assert_eq!(m.spec, "dev");
    assert_eq!(m.mount_point, "/mnt");
    assert_eq!(m.fs_type, "xfs");
    assert_eq!(m.mount_options, vec_str(&["rw", "", "noatime", ""]));
    assert!(!m.is_cgroup2());
}

#[test]
fn extraction_cgroupv2() {
    let fake_cgroup_root = "/tmp/fake_cgroup2_root";
    let files = vec![
        ControllersFile::NotFound,
        ControllersFile::Content(String::from("cpuset cpu io memory hugetlb pids")),
    ];

    let mounts = vec![
        Mount {
            spec: String::from("sysfs"),
            mount_point: String::from("/sys"),
            fs_type: String::from("sysfs"),
            mount_options: vec_str(&["rw", "nosuid", "nodev", "noexec", "relatime"]),
        },
        Mount {
            spec: String::from("cgroup2"),
            mount_point: fake_cgroup_root.to_owned(),
            fs_type: String::from("cgroup2"),
            mount_options: vec_str(&[
                "rw",
                "nosuid",
                "nodev",
                "noexec",
                "relatime",
                "nsdelegate",
                "memory_recursiveprot",
            ]),
        },
    ];

    let cgroups = extract_cgroup_hierarchies(&mounts, &files);
    let cgroup = &cgroups[0];
    assert_eq!(cgroup.root(), fake_cgroup_root);
    assert_eq!(cgroup.version(), CgroupVersion::V2);
    assert_eq!(
        cgroup.available_controllers(),
        vec!["cpuset", "cpu", "io", "memory", "hugetlb", "pids"]
    );
}

#[test]
fn extraction_cgroupv1() {
    let fake_cgroup_root = "/tmp/fake_cgroup1_root";

    let mounts = vec![
        Mount {
            spec: String::from("sysfs"),
            mount_point: String::from("/sys"),
            fs_type: String::from("sysfs"),
            mount_options: vec_str(&["rw", "nosuid", "nodev", "noexec", "relatime"]),
        },
        Mount {
            spec: String::from("cgroup"),
            mount_point: fake_cgroup_root.to_owned(),
            fs_type: String::from("cgroup"),
            mount_options: vec_str(&["cpu", "cpuacct"]),
        },
    ];

    let cgroups = extract_cgroup_hierarchies(&mounts, &[]);
    let cgroup = &cgroups[0];
    assert_eq!(cgroup.root(), fake_cgroup_root);
    assert_eq!(cgroup.version(), CgroupVersion::V1);
    assert_eq!(cgroup.available_controllers(), vec!["cpu", "cpuacct"]);
}

#[test]
fn extraction_no_cgroup() {
    let mounts = vec![
        Mount {
            spec: String::from("sysfs"),
            mount_point: String::from("/sys"),
            fs_type: String::from("sysfs"),
            mount_options: vec_str(&["rw", "nosuid", "nodev", "noexec", "relatime"]),
        },
        Mount {
            spec: String::from("/dev/nvme0n1p1"),
            mount_point: String::from("/boot/efi"),
            fs_type: String::from("vfat"),
            mount_options: vec_str(&["rw", "relatime", "errors=remount-ro"]),
        },
    ];

    let cgroups = extract_cgroup_hierarchies(&mounts, &[]);
    assert!(cgroups.is_empty());
}

#[test]
fn extraction_leaves_out_a_cgroup2_mount_without_controllers() {
    let mounts = vec![Mount {
        spec: String::from("cgroup2"),
        mount_point: String::from("/sys/fs/cgroup"),
        fs_type: String::from("cgroup2"),
        mount_options: vec_str(&["rw"]),
    }];
    assert!(extract_cgroup_hierarchies(&mounts, &[]).is_empty());
    assert!(extract_cgroup_hierarchies(&mounts, &[ControllersFile::Unreadable]).is_empty());
    let m = &mounts[0];
    assert!(m.is_cgroup2());
    assert_eq!(
        CgroupHierarchy::from_mount(m, &ControllersFile::NotFound).unwrap_err(),
        HierarchyError::Controllers(alumet::cgroup::hierarchy::ParseError::WrongVersion)
    );
    assert_eq!(
        CgroupHierarchy::from_mount(m, &ControllersFile::Unreadable).unwrap_err(),
        HierarchyError::Controllers(alumet::cgroup::hierarchy::ParseError::Other)
    );
}

#[test]
fn hierarchy_new_at() {
    let v2 = CgroupHierarchy::new_at(
        String::from("/sys/fs/cgroup"),
        &ControllersFile::Content(String::from("cpu memory\n")),
        ReleaseAgent::Unknown,
    )
    .unwrap();
    assert_eq!(v2.version(), CgroupVersion::V2);
    // the content is split at spaces, nothing else
    assert_eq!(v2.available_controllers(), vec!["cpu", "memory\n"]);

    let v1 = CgroupHierarchy::new_at(
        String::from("/sys/fs/cgroup/cpu,cpuacct"),
        &ControllersFile::NotFound,
        ReleaseAgent::Present,
    )
    .unwrap();
    assert_eq!(v1.version(), CgroupVersion::V1);
    assert_eq!(v1.root(), "/sys/fs/cgroup/cpu,cpuacct");
    assert_eq!(v1.available_controllers(), vec!["cpu", "cpuacct"]);

    let neither = CgroupHierarchy::new_at(
        String::from("/home"),
        &ControllersFile::NotFound,
        ReleaseAgent::Absent,
    );
    assert_eq!(neither.unwrap_err(), HierarchyError::NeitherVersion);
    let root = CgroupHierarchy::new_at(
        String::from("/"),
        &ControllersFile::NotFound,
        ReleaseAgent::Present,
    );
    assert_eq!(root.unwrap_err(), HierarchyError::NeitherVersion);
    let unreadable = CgroupHierarchy::new_at(
        String::from("/sys/fs/cgroup"),
        &ControllersFile::Unreadable,
        ReleaseAgent::Present,
    );
    assert_eq!(
        unreadable.unwrap_err(),
        HierarchyError::Controllers(alumet::cgroup::hierarchy::ParseError::Other)
    );
    let unknown = CgroupHierarchy::new_at(
        String::from("/sys/fs/cgroup/cpu"),
        &ControllersFile::NotFound,
        ReleaseAgent::Unknown,
    );
    assert_eq!(
        unknown.unwrap_err(),
        HierarchyError::Controllers(alumet::cgroup::hierarchy::ParseError::Other)
    );
}

#[test]
fn cgroup_paths() {
    let h = CgroupHierarchy::new_at(
        String::from("/sys/fs/cgroup"),
        &ControllersFile::Content(String::from("cpu")),
        ReleaseAgent::Unknown,
    )
    .unwrap();
    let c = Cgroup::new(&h, String::from("/sys/fs/cgroup/system.slice/a.service"));
    assert_eq!(c.fs_path(), "/sys/fs/cgroup/system.slice/a.service");
    // the relative path is not the full path handed in
    assert_eq!(c.cgroup_path(), "system.slice/a.service");
    assert_eq!(c.hierarchy().root(), "/sys/fs/cgroup");
    assert!(Cgroup::try_new(&h, String::from("/sys/fs/other/x")).is_none());
    assert!(!Cgroup::lies_in(&h, "/sys/fs/cgroupx/y"));
    let root = Cgroup::try_new(&h, String::from("/sys/fs/cgroup")).unwrap();
    assert_eq!(root.cgroup_path(), "");
}
