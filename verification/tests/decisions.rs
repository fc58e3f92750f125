use cap_std::ambient_authority;
use cap_std::fs::Dir as CapDir;
use hyperlight_sandbox::cap_fs::listing::HostEntry;
use hyperlight_sandbox::cap_fs::output::MAX_OUTPUT_FILE_COUNT;
use hyperlight_sandbox::cap_fs::stat::{file_size_replied, stat_replied};
use hyperlight_sandbox::cap_fs::{
    Cleanup, CleanupAction, CleanupEvent, GuestFileReply, HostDir, OutputListing, ReadStep,
    RenameStage, StatQuery, Unlink,
};
use hyperlight_sandbox::cap_fs::namespace::unlink_refused;
use hyperlight_sandbox::error::{
    GuestFileError, HostError, IoErrorKind, MountError, OutputPathError,
};
use hyperlight_sandbox::perms::HostMetadata;
use hyperlight_sandbox::sandbox::MountRequest;
use hyperlight_sandbox::{
    CapFs, DescriptorStat, DescriptorType, Dir, DirPerms, FilePerms, FilesystemLimits, FsError,
    MountLifetime, OpenFlags, PathFlags, SandboxBuilder, SandboxConfig, Snapshot, WorkDirAccess,
};
use tempfile::TempDir;

const FILE: HostMetadata = HostMetadata {
    is_dir: false,
    is_symlink: false,
    len: 10,
};
const DIRECTORY: HostMetadata = HostMetadata {
    is_dir: true,
    is_symlink: false,
    len: 4096,
};
const LINK: HostMetadata = HostMetadata {
    is_dir: false,
    is_symlink: true,
    len: 3,
};

fn failure(kind: IoErrorKind) -> HostError {
    HostError {
        kind,
        message: "failed".to_string(),
    }
}

fn missing<T>() -> Result<T, HostError> {
    Err(failure(IoErrorKind::NotFound))
}

fn host_dir(temp: &TempDir, root: &[&str]) -> HostDir {
    HostDir {
        dir: CapDir::open_ambient_dir(temp.path(), ambient_authority()).unwrap(),
        path: temp.path().to_path_buf(),
        root: root.iter().map(|part| part.to_string()).collect(),
    }
}

/// A filesystem with `/input` as 3, `/output` as 4 and a writable `/work` as 5.
fn mounted(limits: FilesystemLimits) -> (CapFs, TempDir) {
    let temp = tempfile::tempdir().unwrap();
    let fs = CapFs::new()
        .with_limits(limits)
        .with_input(host_dir(&temp, &["/", "in"]))
        .unwrap()
        .with_output_dir(
            host_dir(&temp, &["/", "out"]),
            DirPerms::READ | DirPerms::MUTATE,
            FilePerms::READ | FilePerms::WRITE,
        )
        .unwrap()
        .with_work(host_dir(&temp, &["/", "work"]), WorkDirAccess::ReadWrite)
        .unwrap();
    (fs, temp)
}

fn standard() -> (CapFs, TempDir) {
    mounted(FilesystemLimits::default())
}

/// Opens a file that the host reports to exist.
fn open_file(fs: &mut CapFs, dir_fd: u32, path: &str) -> Result<u32, FsError> {
    let op = fs.open_at(dir_fd, path, OpenFlags::OPEN_EXISTING)?;
    let op = fs.open_probed(op, Ok(FILE))?;
    assert!(!op.must_create());
    let op = op.confirmed(Ok(FILE))?;
    assert!(!op.is_directory());
    fs.opened(op, None)
}

/// Opens a directory that the host reports to exist.
fn open_directory(fs: &mut CapFs, temp: &TempDir, dir_fd: u32, path: &str) -> Result<u32, FsError> {
    let op = fs.open_at(dir_fd, path, OpenFlags::DIRECTORY)?;
    let op = fs.open_probed(op, Ok(DIRECTORY))?;
    let op = op.confirmed(Ok(DIRECTORY))?;
    assert!(op.is_directory());
    fs.opened(op, Some(host_dir(temp, &[]).dir))
}

#[test]
fn opening_asks_for_the_path_below_the_descriptor() {
    let (mut fs, temp) = standard();
    let src = open_directory(&mut fs, &temp, 5, "a/./src/").unwrap();
    let op = fs
        .open_at(src, "x//y.txt", OpenFlags::OPEN_EXISTING)
        .unwrap();
    assert_eq!(op.target().path(), "x/y.txt");
    assert!(op.follows_symlinks());
    let file = open_file(&mut fs, src, "x//y.txt").unwrap();
    assert_eq!(fs.file_size(file).unwrap().path(), "a/src/x/y.txt");
    assert_eq!(fs.file_dir_fd(file), Some(src));
    assert_eq!(fs.find_file_in_dir(src, "y.txt"), Some(file));
    assert_eq!(fs.find_file_in_dir(src, "x"), None);
    assert_eq!(fs.find_file_in_dir(5, "y.txt"), None);
    assert_eq!((src, file), (6, 7));
}

#[test]
fn what_was_found_decides_how_a_path_is_opened() {
    let cases = [
        (OpenFlags::OPEN_EXISTING, missing(), Err(FsError::NoEntry)),
        (
            OpenFlags::CREATE,
            Err(failure(IoErrorKind::PermissionDenied)),
            Err(FsError::Access),
        ),
        (OpenFlags::CREATE, missing(), Ok(true)),
        (OpenFlags::CREATE, Ok(FILE), Ok(false)),
        (OpenFlags::TRUNCATE, Ok(FILE), Ok(true)),
        (OpenFlags::TRUNCATE, missing(), Err(FsError::NoEntry)),
        (
            OpenFlags::TRUNCATE,
            Ok(DIRECTORY),
            Err(FsError::InvalidPath),
        ),
        (OpenFlags::CREATE | OpenFlags::TRUNCATE, missing(), Ok(true)),
        (OpenFlags::DIRECTORY, Ok(FILE), Err(FsError::NoEntry)),
        (
            OpenFlags::CREATE | OpenFlags::DIRECTORY,
            missing(),
            Err(FsError::NoEntry),
        ),
        (OpenFlags::DIRECTORY, Ok(DIRECTORY), Ok(false)),
    ];
    for (flags, found, expected) in cases {
        let (mut fs, _temp) = standard();
        let op = fs.open_at(4, "name", flags).unwrap();
        let probed = fs.open_probed(op, found).map(|op| op.must_create());
        assert_eq!(probed, expected);
    }
}

#[test]
fn a_final_link_is_opened_only_if_asked_to() {
    let (mut fs, _temp) = standard();
    let op = fs
        .open_at_with_path_flags(4, "link", PathFlags::empty(), OpenFlags::OPEN_EXISTING)
        .unwrap();
    assert!(!op.follows_symlinks());
    assert_eq!(
        fs.open_probed(op, Ok(LINK)).err(),
        Some(FsError::SymlinkLoop)
    );
    // It may have become a link in the meantime.
    let op = fs
        .open_at_with_path_flags(4, "link", PathFlags::empty(), OpenFlags::OPEN_EXISTING)
        .unwrap();
    let op = fs.open_probed(op, Ok(FILE)).unwrap();
    assert_eq!(op.confirmed(Ok(LINK)).err(), Some(FsError::SymlinkLoop));
    let op = fs.open_at(4, "link", OpenFlags::OPEN_EXISTING).unwrap();
    let op = fs.open_probed(op, Ok(FILE)).unwrap();
    assert_eq!(op.confirmed(missing()).err(), Some(FsError::NoEntry));
}

#[test]
fn a_creation_is_charged_even_if_it_then_fails() {
    let (mut fs, _temp) = mounted(FilesystemLimits {
        max_creations_per_run: 2,
        ..FilesystemLimits::default()
    });
    for _ in 0..2 {
        let op = fs.open_at(4, "new", OpenFlags::CREATE).unwrap();
        assert!(fs.open_probed(op, missing()).unwrap().must_create());
    }
    let op = fs.open_at(4, "new", OpenFlags::CREATE).unwrap();
    assert_eq!(fs.open_probed(op, missing()).err(), Some(FsError::Quota));
    // Truncating creates nothing.
    let op = fs.open_at(4, "old", OpenFlags::TRUNCATE).unwrap();
    assert!(fs.open_probed(op, Ok(FILE)).unwrap().must_create());
    assert_eq!(
        fs.create_directory_at(4, "dir").err(),
        Some(FsError::Quota)
    );
}

#[test]
fn read_only_mounts_cannot_be_changed_however_deep() {
    let (mut fs, temp) = standard();
    let deep = open_directory(&mut fs, &temp, 3, "a/b").unwrap();
    let deeper = open_directory(&mut fs, &temp, deep, "c").unwrap();
    let file = open_file(&mut fs, deeper, "f").unwrap();
    for dir in [3, deep, deeper] {
        assert_eq!(fs.get_flags(dir), fs.get_flags(3));
        for flags in [OpenFlags::CREATE, OpenFlags::TRUNCATE] {
            assert_eq!(fs.open_at(dir, "x", flags).err(), Some(FsError::NotPermitted));
        }
        assert_eq!(
            fs.create_directory_at(dir, "x").err(),
            Some(FsError::NotPermitted)
        );
        assert_eq!(
            fs.remove_directory_at(dir, "x").err(),
            Some(FsError::NotPermitted)
        );
        assert_eq!(
            fs.unlink_file_at(dir, "x").err(),
            Some(FsError::NotPermitted)
        );
        assert_eq!(
            fs.rename_at(dir, "x", 4, "y").err(),
            Some(FsError::NotPermitted)
        );
    }
    assert_eq!(
        fs.write_file(file, 0, b"x").err(),
        Some(FsError::NotPermitted)
    );
    assert_eq!(
        fs.create_write_stream(file, 0),
        Err(FsError::NotPermitted)
    );
    assert_eq!(fs.append_sized(file, Ok(FILE)), Err(FsError::NotPermitted));
    assert!(fs.file_has_perms(file, FilePerms::READ));
    assert!(!fs.file_has_perms(file, FilePerms::WRITE));
}

#[test]
fn permissions_are_inherited_below_a_mount() {
    let temp = tempfile::tempdir().unwrap();
    let mut fs = CapFs::new()
        .with_output_dir(host_dir(&temp, &["o"]), DirPerms::MUTATE, FilePerms::WRITE)
        .unwrap();
    let dir = open_directory(&mut fs, &temp, 3, "d").unwrap();
    assert_eq!(fs.get_dir(dir).unwrap().perms(), DirPerms::MUTATE);
    assert_eq!(fs.get_dir(dir).unwrap().file_perms(), FilePerms::WRITE);
    assert_eq!(fs.stat_at(dir, "x").err(), Some(FsError::NotPermitted));
    assert_eq!(fs.create_dir_stream(dir).err(), Some(FsError::NotPermitted));
    let file = open_file(&mut fs, dir, "f").unwrap();
    assert_eq!(fs.read_file(file, 0, 1).err(), Some(FsError::NotPermitted));
    assert_eq!(
        fs.create_read_stream(file, 0),
        Err(FsError::NotPermitted)
    );
    assert!(fs.create_write_stream(file, 0).is_ok());
}

#[test]
fn closing_undoes_opening_and_nothing_else() {
    let (mut fs, temp) = standard();
    let dir = open_directory(&mut fs, &temp, 5, "d").unwrap();
    let file = open_file(&mut fs, dir, "f").unwrap();
    let other = open_file(&mut fs, dir, "f").unwrap();
    let stream = fs.create_read_stream(file, 0).unwrap();
    let kept = fs.create_read_stream(other, 0).unwrap();

    assert_eq!(fs.close_descriptor(dir), Ok(()));
    assert_eq!(fs.close_descriptor(dir), Err(FsError::BadDescriptor));
    assert!(fs.is_file(file));
    assert_eq!(fs.close_descriptor(file), Ok(()));
    assert!(!fs.has_stream(stream));
    assert!(fs.has_stream(kept));
    assert!(fs.is_file(other));
    for mount in [3, 4, 5] {
        assert_eq!(fs.close_descriptor(mount), Err(FsError::NotPermitted));
        fs.close_file(mount);
        assert!(fs.is_directory(mount));
    }
    // Files and directories alike.
    let dir = open_directory(&mut fs, &temp, 5, "d").unwrap();
    fs.close_file(dir);
    assert_eq!(fs.get_type(dir), Err(FsError::BadDescriptor));
    fs.close_file(other);
    assert_eq!(fs.get_type(other), Err(FsError::BadDescriptor));
    assert!(!fs.has_stream(kept));
    fs.close_file(999);
}

#[test]
fn removing_a_name_invalidates_exactly_what_lies_below_it() {
    let (mut fs, temp) = standard();
    let dir = open_directory(&mut fs, &temp, 4, "a").unwrap();
    let inside = open_file(&mut fs, dir, "b/c").unwrap();
    let sibling = open_file(&mut fs, 4, "ab").unwrap();
    let elsewhere = open_file(&mut fs, 5, "a/b").unwrap();
    let stream = fs.create_read_stream(inside, 0).unwrap();
    let listing = fs.create_dir_stream(dir).unwrap();
    let entries = fs.list_finished(listing).unwrap();

    // A failure changes nothing.
    let removal = fs.remove_directory_at(4, "a").unwrap();
    assert_eq!(removal.target().path(), "a");
    assert_eq!(
        fs.removed(removal, Err(failure(IoErrorKind::DirectoryNotEmpty))),
        Err(FsError::NotEmpty)
    );
    assert!(fs.is_directory(dir) && fs.is_file(inside));

    let removal = fs.remove_directory_at(4, "a/").unwrap();
    assert_eq!(fs.removed(removal, Ok(())), Ok(()));
    assert_eq!(fs.get_type(dir), Err(FsError::BadDescriptor));
    assert_eq!(fs.get_type(inside), Err(FsError::BadDescriptor));
    assert!(!fs.has_stream(stream) && !fs.has_dir_stream(entries));
    assert!(fs.is_file(sibling) && fs.is_file(elsewhere));
}

#[test]
fn unlinking_keeps_directories() {
    let (fs, _temp) = standard();
    assert!(matches!(
        fs.unlink_file_at(4, "f"),
        Ok(Unlink::Remove(removal)) if removal.target().path() == "f"
    ));
    assert!(matches!(
        fs.unlink_file_at(4, "f/"),
        Ok(Unlink::Refuse(target)) if target.path() == "f"
    ));
    assert_eq!(unlink_refused(Ok(DIRECTORY)), FsError::IsDirectory);
    assert_eq!(unlink_refused(Ok(FILE)), FsError::NotDirectory);
    assert_eq!(unlink_refused(Ok(LINK)), FsError::NotDirectory);
    assert_eq!(unlink_refused(missing()), FsError::NoEntry);
}

#[test]
fn renaming_goes_through_its_stages() {
    let (mut fs, _temp) = standard();
    let source = open_file(&mut fs, 4, "old/f").unwrap();
    let target = open_file(&mut fs, 4, "new").unwrap();
    let other = open_file(&mut fs, 4, "other").unwrap();

    let rename = fs.rename_at(4, "old", 4, "new").unwrap();
    assert_eq!(rename.stage(), RenameStage::ProbeSource);
    let rename = rename.probed(Ok(DIRECTORY)).unwrap();
    assert_eq!(rename.stage(), RenameStage::Move);
    assert_eq!(rename.source().path(), "old");
    assert_eq!(rename.destination().path(), "new");
    assert_eq!(fs.renamed(rename, Ok(())), Ok(()));
    assert!(!fs.is_file(source) && !fs.is_file(target) && fs.is_file(other));

    let rename = fs.rename_at(4, "old/", 4, "new/").unwrap();
    assert_eq!(
        rename.probed(Ok(LINK)).err(),
        Some(FsError::NotDirectory)
    );
    let rename = fs.rename_at(4, "old/", 4, "new/").unwrap();
    let rename = rename.probed(Ok(DIRECTORY)).unwrap();
    assert_eq!(rename.stage(), RenameStage::ProbeDestination);
    assert_eq!(
        rename.probed(Ok(FILE)).err(),
        Some(FsError::NotDirectory)
    );
    let rename = fs.rename_at(4, "old", 4, "new/").unwrap();
    let rename = rename.probed(Ok(FILE)).unwrap();
    assert_eq!(rename.probed(missing()).err(), Some(FsError::NoEntry));

    // To the same path: nothing is invalidated.
    let rename = fs.rename_at(4, "other", 4, "./other").unwrap();
    let rename = rename.probed(Ok(FILE)).unwrap();
    assert_eq!(fs.renamed(rename, Ok(())), Ok(()));
    assert!(fs.is_file(other));
    let rename = fs.rename_at(4, "other", 4, "x").unwrap();
    let rename = rename.probed(Ok(FILE)).unwrap();
    assert_eq!(
        fs.renamed(rename, Err(failure(IoErrorKind::Other))),
        Err(FsError::Io("failed".to_string()))
    );
    assert!(fs.is_file(other));
}

#[test]
fn renames_stay_in_their_mount() {
    let (fs, _temp) = standard();
    assert_eq!(
        fs.rename_at(4, "a", 5, "a").err(),
        Some(FsError::CrossDevice)
    );
    // Both paths are looked at before the permissions are.
    assert_eq!(
        fs.rename_at(3, "a", 4, "..").err(),
        Some(FsError::InvalidPath)
    );
    assert_eq!(
        fs.rename_at(3, "a", 99, "b").err(),
        Some(FsError::BadDescriptor)
    );
}

#[test]
fn reads_are_planned_and_charged() {
    let (mut fs, _temp) = mounted(FilesystemLimits {
        max_single_read_bytes: 6,
        max_read_bytes_per_run: 8,
        ..FilesystemLimits::default()
    });
    let file = open_file(&mut fs, 3, "f").unwrap();
    let mut plan = |offset: u64, len: u64, size: u64| {
        let request = fs.read_file(file, offset, len).unwrap();
        match fs.read_sized(request, Ok(size)) {
            Ok(ReadStep::Nothing) => Ok((0, 0)),
            Ok(ReadStep::Read(plan)) => Ok((plan.start, plan.amount)),
            Err(e) => Err(e),
        }
    };
    assert_eq!(plan(0, 100, 10), Ok((0, 6)));
    assert_eq!(plan(0, 0, 10), Ok((0, 0)));
    assert_eq!(plan(20, 5, 10), Ok((0, 0)));
    assert_eq!(plan(8, 100, 10), Ok((8, 2)));
    assert_eq!(plan(0, 1, 10), Err(FsError::Quota));
    assert_eq!(plan(u64::MAX, u64::MAX, 10), Ok((0, 0)));

    let (mut fs, _temp) = standard();
    let file = open_file(&mut fs, 3, "f").unwrap();
    let request = fs.read_file(file, 2, 100).unwrap();
    let step = fs.read_sized(request, Ok(10)).unwrap();
    let ReadStep::Read(plan) = step else {
        panic!("nothing to read")
    };
    assert_eq!(
        plan.read(Ok(vec![1, 2, 3])),
        Ok((vec![1, 2, 3], false))
    );
    assert_eq!(plan.read(Ok(vec![0; 8])), Ok((vec![0; 8], true)));
    assert_eq!(
        plan.read(Err(failure(IoErrorKind::Interrupted))),
        Err(FsError::Interrupted)
    );
    let request = fs.read_file(file, 0, 1).unwrap();
    assert_eq!(
        fs.read_sized(request, missing()).err(),
        Some(FsError::NoEntry)
    );
}

#[test]
fn writes_extend_the_file_where_they_must() {
    let (mut fs, _temp) = mounted(FilesystemLimits {
        max_written_bytes_per_run: 12,
        ..FilesystemLimits::default()
    });
    let file = open_file(&mut fs, 4, "f").unwrap();
    let plan = fs
        .write_file(file, 8, b"abcd")
        .unwrap()
        .sized(Ok(10))
        .unwrap();
    assert_eq!((plan.offset, plan.len, plan.extend_to), (8, 4, Some(12)));
    assert_eq!(plan.written(Ok(())), Ok(4));
    assert_eq!(
        plan.written(Err(failure(IoErrorKind::StorageFull))),
        Err(FsError::InsufficientSpace)
    );
    let plan = fs
        .write_file(file, 0, b"abcd")
        .unwrap()
        .sized(Ok(4))
        .unwrap();
    assert_eq!(plan.extend_to, None);
    // The bytes are charged though the write cannot be done.
    assert_eq!(
        fs.write_file(file, u64::MAX, b"ab").unwrap().sized(Ok(0)),
        Err(FsError::Overflow)
    );
    assert_eq!(
        fs.write_file(file, 0, b"abc").err(),
        Some(FsError::Quota)
    );
    assert!(fs.write_file(file, 0, b"ab").is_ok());
}

#[test]
fn streams_move_on_by_what_was_read_or_written() {
    let (mut fs, _temp) = standard();
    let file = open_file(&mut fs, 4, "f").unwrap();
    let reader = fs.create_read_stream(file, 2).unwrap();
    assert!(!fs.is_write_stream(reader));
    let plan = fs.stream_read(reader, 100).unwrap().sized(Ok(10)).unwrap();
    assert_eq!((plan.offset, plan.wanted), (2, 8));
    assert_eq!(fs.stream_sought(&plan, Ok(())), Ok(8));
    assert_eq!(fs.stream_got(reader, Ok(vec![7; 3])), Ok(vec![7; 3]));
    let plan = fs.stream_read(reader, 2).unwrap().sized(Ok(10)).unwrap();
    assert_eq!((plan.offset, plan.wanted), (5, 2));
    assert_eq!(
        fs.stream_sought(&plan, Err(failure(IoErrorKind::NotSeekable))),
        Err(FsError::InvalidSeek)
    );
    assert_eq!(
        fs.stream_got(reader, Ok(Vec::new())),
        Err(FsError::Io("stream read returned no data".to_string()))
    );
    assert_eq!(
        fs.stream_read(reader, 2).unwrap().sized(Ok(5)),
        Err(FsError::Io("stream read past end of file".to_string()))
    );

    let writer = fs.create_write_stream(file, 4).unwrap();
    assert!(fs.is_write_stream(writer));
    for (offset, piece) in [(4, "ab"), (6, "cde"), (9, "f")] {
        let write = fs.stream_write(writer, piece.as_bytes()).unwrap();
        let plan = write.request.sized(Ok(100)).unwrap();
        assert_eq!((plan.offset, plan.len), (offset, piece.len() as u64));
        assert_eq!(fs.stream_wrote(writer, plan.len), Ok(plan.len));
    }
    // The offset stops at the largest one.
    assert_eq!(fs.stream_wrote(writer, u64::MAX), Ok(u64::MAX));
    let write = fs.stream_write(writer, b"x").unwrap();
    assert_eq!(write.request.sized(Ok(0)), Err(FsError::Overflow));

    let target = fs.create_append_stream(file).unwrap();
    assert_eq!(target.path(), "f");
    let appender = fs.append_sized(file, Ok(FILE)).unwrap();
    let write = fs.stream_write(appender, b"x").unwrap();
    assert_eq!(write.request.sized(Ok(10)).unwrap().offset, 10);
    assert_eq!(
        fs.append_sized(file, missing()),
        Err(FsError::BadDescriptor)
    );
    fs.close_stream(writer);
    assert!(!fs.has_stream(writer));
    assert_eq!(
        fs.stream_write(writer, b"x").err(),
        Some(FsError::BadDescriptor)
    );
    assert_eq!(fs.stream_wrote(writer, 1), Err(FsError::BadDescriptor));
    assert_eq!(
        fs.stream_got(writer, Ok(vec![1])),
        Err(FsError::BadDescriptor)
    );
    assert_eq!(
        fs.create_append_stream(4).err(),
        Some(FsError::BadDescriptor)
    );
}

#[test]
fn stream_reads_share_the_read_budget() {
    let (mut fs, _temp) = mounted(FilesystemLimits {
        max_single_read_bytes: 4,
        max_read_bytes_per_run: 6,
        ..FilesystemLimits::default()
    });
    let file = open_file(&mut fs, 3, "f").unwrap();
    let stream = fs.create_read_stream(file, 0).unwrap();
    let plan = fs.stream_read(stream, 100).unwrap().sized(Ok(10)).unwrap();
    assert_eq!(fs.stream_sought(&plan, Ok(())), Ok(4));
    assert_eq!(fs.stream_sought(&plan, Ok(())), Err(FsError::Quota));
    assert_eq!(
        fs.guest_file_sized(GuestFileReply::Size(3)),
        Err(GuestFileError::QuotaExceeded)
    );
    assert_eq!(fs.guest_file_sized(GuestFileReply::Size(2)), Ok(2));
}

fn entry(name: &str, is_dir: bool) -> Result<HostEntry, HostError> {
    Ok(HostEntry {
        name: name.to_string(),
        is_dir: Ok(is_dir),
    })
}

#[test]
fn directory_streams_yield_each_entry_once() {
    let (mut fs, _temp) = standard();
    let mut listing = fs.create_dir_stream(3).unwrap();
    assert_eq!(fs.list_entry(&mut listing, entry("b", false)), Ok(()));
    assert_eq!(fs.list_entry(&mut listing, entry("a", true)), Ok(()));
    let stream = fs.list_finished(listing).unwrap();
    assert_eq!(
        fs.read_dir_entry(stream),
        Some(Some(("b".to_string(), false)))
    );
    assert_eq!(
        fs.read_dir_entry(stream),
        Some(Some(("a".to_string(), true)))
    );
    assert_eq!(fs.read_dir_entry(stream), Some(None));
    assert_eq!(fs.read_dir_entry(stream), Some(None));
    fs.close_dir_stream(stream);
    assert_eq!(fs.read_dir_entry(stream), None);
}

#[test]
fn listings_are_bounded_and_charged() {
    let (mut fs, _temp) = mounted(FilesystemLimits {
        max_directory_entries_per_listing: 2,
        max_directory_entries_per_run: 3,
        ..FilesystemLimits::default()
    });
    let mut listing = fs.create_dir_stream(3).unwrap();
    assert_eq!(fs.list_entry(&mut listing, entry("a", false)), Ok(()));
    assert_eq!(fs.list_entry(&mut listing, entry("b", false)), Ok(()));
    assert_eq!(
        fs.list_entry(&mut listing, entry("c", false)),
        Err(FsError::Quota)
    );
    // An entry is charged before its type is looked at.
    let mut listing = fs.create_dir_stream(3).unwrap();
    let unknown = HostEntry {
        name: "d".to_string(),
        is_dir: missing(),
    };
    assert_eq!(
        fs.list_entry(&mut listing, Ok(unknown)),
        Err(FsError::NoEntry)
    );
    assert_eq!(
        fs.list_entry(&mut listing, entry("e", false)),
        Err(FsError::Quota)
    );
    assert_eq!(
        fs.list_entry(&mut listing, Err(failure(IoErrorKind::Other))),
        Err(FsError::Io("failed".to_string()))
    );
    assert_eq!(
        fs.create_dir_stream(99).err(),
        Some(FsError::BadDescriptor)
    );
}

#[test]
fn full_tables_refuse_and_lowered_limits_evict_nothing() {
    let (mut fs, temp) = standard();
    let file = open_file(&mut fs, 3, "f").unwrap();
    let stream = fs.create_read_stream(file, 0).unwrap();
    let mut fs = fs.with_limits(FilesystemLimits {
        max_open_descriptors: 1,
        max_open_streams: 1,
        ..FilesystemLimits::default()
    });
    assert_eq!(fs.limits().max_open_streams, 1);
    assert!(fs.is_file(file) && fs.has_stream(stream));
    assert_eq!(open_file(&mut fs, 3, "g"), Err(FsError::Quota));
    assert_eq!(fs.create_read_stream(file, 0), Err(FsError::Quota));
    assert_eq!(fs.create_dir_stream(3).err(), Some(FsError::Quota));
    let dir = Dir::new(
        host_dir(&temp, &[]).dir,
        DirPerms::READ,
        FilePerms::READ,
    );
    assert_eq!(
        fs.register_preopen(dir, "/more", MountLifetime::Persistent),
        Err(FsError::Quota)
    );
    assert!(matches!(
        fs.with_temp_dir(host_dir(&temp, &["t"])),
        Err(MountError::Fs(FsError::Quota))
    ));
}

#[test]
fn directories_of_different_lifetimes_do_not_overlap() {
    let temp = tempfile::tempdir().unwrap();
    let base = || {
        CapFs::new()
            .with_work(
                host_dir(&temp, &["/", "home", "work"]),
                WorkDirAccess::ReadWrite,
            )
            .unwrap()
    };
    for root in [
        vec!["/", "home", "work"],
        vec!["/", "home"],
        vec!["/"],
        vec!["/", "home", "work", "out"],
    ] {
        assert!(matches!(
            base().with_temp_output(host_dir(&temp, &root)),
            Err(MountError::Overlap)
        ));
    }
    for root in [vec!["/", "home", "work2"], vec!["/", "tmp"]] {
        assert!(base().with_temp_dir(host_dir(&temp, &root)).is_ok());
    }
    // Directories of one lifetime may share their place.
    assert!(base()
        .with_input(host_dir(&temp, &["/", "home", "work", "in"]))
        .is_ok());
}

#[test]
fn mounts_have_their_lifetimes_and_numbers() {
    let temp = tempfile::tempdir().unwrap();
    let mut fs = CapFs::default();
    let requests = [
        (MountRequest::Input(temp.path().to_path_buf()), true),
        (MountRequest::TempOutput, false),
        (
            MountRequest::Work(temp.path().to_path_buf(), WorkDirAccess::ReadOnly),
            true,
        ),
        (MountRequest::Temp, false),
    ];
    for (i, (request, kept)) in requests.into_iter().enumerate() {
        let name = format!("d{i}");
        fs = request.mount(fs, host_dir(&temp, &["/", &name])).unwrap();
        let expected = if kept {
            MountLifetime::Persistent
        } else {
            MountLifetime::ClearBeforeRun
        };
        assert_eq!(fs.mount_lifetime(3 + i as u32), Some(expected));
    }
    assert_eq!(
        fs.preopens(),
        vec![(3, "/input"), (4, "/output"), (5, "/work"), (6, "/tmp")]
    );
    assert_eq!(fs.mount_by_guest_path("/work"), Some(5));
    assert_eq!(fs.mount_by_guest_path("/nowhere"), None);
    assert_eq!(fs.output_path(), Some(&temp.path().to_path_buf()));
    assert_eq!(fs.temp_path(), Some(&temp.path().to_path_buf()));
    assert_eq!(fs.mount_lifetime(7), None);
    assert_eq!(CapFs::new().output_path(), None);
    assert_eq!(CapFs::new().temp_path(), None);
}

#[test]
fn metadata_is_reported_by_type() {
    let (mut fs, _temp) = standard();
    let report = |path: &str, reply| fs.stat_at(4, path).unwrap().replied(reply);
    assert_eq!(
        report("x", Ok(DIRECTORY)),
        Ok(DescriptorStat {
            descriptor_type: DescriptorType::Directory,
            size: 4096,
        })
    );
    assert_eq!(
        report("x", Ok(LINK)).unwrap().descriptor_type,
        DescriptorType::SymbolicLink
    );
    assert_eq!(report("x/", Ok(FILE)), Err(FsError::InvalidPath));
    assert_eq!(report("x", missing()), Err(FsError::NoEntry));

    let file = open_file(&mut fs, 4, "f").unwrap();
    assert!(matches!(fs.stat(file), Ok(StatQuery::Ask(target)) if target.path() == "f"));
    assert!(matches!(
        fs.stat(4),
        Ok(StatQuery::Known(DescriptorStat {
            descriptor_type: DescriptorType::Directory,
            size: 0,
        }))
    ));
    assert_eq!(stat_replied(Ok(FILE)).unwrap().size, 10);
    assert_eq!(stat_replied(missing()), Err(FsError::BadDescriptor));
    assert_eq!(file_size_replied(Ok(FILE)), Some(10));
    assert_eq!(file_size_replied(missing()), None);
    assert!(fs.file_size(4).is_none());
}

#[test]
fn the_host_reads_by_guest_path_under_the_same_policy() {
    let temp = tempfile::tempdir().unwrap();
    let (mut fs, _temp) = standard();
    let refusal = |fs: &CapFs, path: &str| fs.read_guest_file(path).err();
    assert_eq!(refusal(&fs, "input/a"), Some(GuestFileError::NotAbsolute));
    assert_eq!(refusal(&fs, "/input"), Some(GuestFileError::NoFileName));
    assert_eq!(
        refusal(&fs, "/input/../a"),
        Some(GuestFileError::InvalidPath)
    );
    assert_eq!(
        refusal(&fs, "/input/a/"),
        Some(GuestFileError::NamesDirectory)
    );
    assert_eq!(refusal(&fs, "/nowhere/a"), Some(GuestFileError::NoPreopen));
    assert_eq!(
        fs.read_guest_file("/input/./a//b").unwrap().path(),
        "a/b"
    );
    let unreadable = CapFs::new()
        .with_output_dir(host_dir(&temp, &["o"]), DirPerms::MUTATE, FilePerms::READ)
        .unwrap();
    assert_eq!(
        refusal(&unreadable, "/output/a"),
        Some(GuestFileError::DirectoryDenied)
    );
    let unreadable = CapFs::new()
        .with_output_dir(host_dir(&temp, &["o"]), DirPerms::READ, FilePerms::WRITE)
        .unwrap();
    assert_eq!(
        refusal(&unreadable, "/output/a"),
        Some(GuestFileError::FilesDenied)
    );
    assert_eq!(
        fs.guest_file_sized(GuestFileReply::NotOpened),
        Err(GuestFileError::NotFound)
    );
    assert_eq!(
        fs.guest_file_sized(GuestFileReply::NotSized),
        Err(GuestFileError::StatFailed)
    );
    let limit = 16 * 1024 * 1024;
    assert_eq!(
        fs.guest_file_sized(GuestFileReply::Size(limit + 1)),
        Err(GuestFileError::TooLarge {
            size: limit + 1,
            limit,
        })
    );
    assert_eq!(
        fs.guest_file_sized(GuestFileReply::Size(limit)),
        Ok(limit)
    );
}

#[test]
fn the_host_writes_only_below_the_output_directory() {
    let temp = tempfile::tempdir().unwrap();
    let (fs, _temp) = standard();
    let refusal = |fs: &CapFs, path: &str| fs.write_output_path(path).err();
    assert_eq!(refusal(&fs, "/input/a"), Some(OutputPathError::NotRooted));
    assert_eq!(refusal(&fs, "/output"), Some(OutputPathError::NotRooted));
    assert_eq!(
        refusal(&fs, "/output/../a"),
        Some(OutputPathError::InvalidPath)
    );
    assert_eq!(refusal(&fs, "/output/"), Some(OutputPathError::InvalidPath));
    assert_eq!(
        refusal(&fs, "/output/a/"),
        Some(OutputPathError::NamesDirectory)
    );
    assert_eq!(
        refusal(&CapFs::new(), "/output/a"),
        Some(OutputPathError::NoOutput)
    );
    assert_eq!(fs.write_output_path("/output/a/b").unwrap().path(), "a/b");
    let with = |perms, file_perms| {
        CapFs::new()
            .with_output_dir(host_dir(&temp, &["o"]), perms, file_perms)
            .unwrap()
    };
    assert_eq!(
        refusal(&with(DirPerms::READ, FilePerms::WRITE), "/output/a"),
        Some(OutputPathError::DirectoryDenied)
    );
    assert_eq!(
        refusal(&with(DirPerms::MUTATE, FilePerms::READ), "/output/a"),
        Some(OutputPathError::FilesDenied)
    );

    let (mut fs, _temp) = mounted(FilesystemLimits {
        max_creations_per_run: 1,
        max_written_bytes_per_run: 5,
        ..FilesystemLimits::default()
    });
    assert_eq!(
        fs.output_probed(Err(failure(IoErrorKind::PermissionDenied)), 1),
        Err(OutputPathError::StatFailed)
    );
    assert_eq!(
        fs.output_probed(Ok(FILE), 6),
        Err(OutputPathError::WriteQuota)
    );
    // The creation stays charged where the bytes do not fit.
    assert_eq!(
        fs.output_probed(missing(), 6),
        Err(OutputPathError::WriteQuota)
    );
    assert_eq!(
        fs.output_probed(missing(), 1),
        Err(OutputPathError::CreationQuota)
    );
    assert_eq!(fs.output_probed(Ok(FILE), 5), Ok(()));
}

#[test]
fn output_listings_keep_regular_files_up_to_the_bound() {
    let (fs, _temp) = standard();
    assert!(fs.get_output_files().is_some());
    assert!(CapFs::new().get_output_files().is_none());
    let mut listing = OutputListing::new();
    assert!(listing.note("dir".to_string(), Some(false)));
    assert!(listing.note("gone".to_string(), None));
    for i in 0..MAX_OUTPUT_FILE_COUNT {
        assert!(listing.note(format!("f{i}"), Some(true)));
    }
    assert!(!listing.note("more".to_string(), Some(true)));
    assert!(!listing.note("dir".to_string(), Some(false)));
    let files = listing.files();
    assert_eq!(files.len(), MAX_OUTPUT_FILE_COUNT);
    assert_eq!((files[0].as_str(), files[1].as_str()), ("f0", "f1"));
}

fn listed(cleanup: &mut Cleanup, entries: usize) {
    for _ in 0..entries {
        assert_eq!(cleanup.action(), CleanupAction::List);
        cleanup.advance(CleanupEvent::Entry(Ok(())));
    }
    cleanup.advance(CleanupEvent::Listed);
}

#[test]
fn a_cleanup_walks_the_tree() {
    let (mut fs, _temp) = standard();
    let mut cleanup = fs.clear_mount(4).unwrap();
    assert_eq!(cleanup.mount_fd(), 4);
    listed(&mut cleanup, 3);
    // A file, a link that is not followed, and a directory with one file.
    assert_eq!(cleanup.action(), CleanupAction::Inspect(0));
    cleanup.advance(CleanupEvent::Found(Ok(FILE)));
    assert_eq!(cleanup.action(), CleanupAction::Unlink(0));
    cleanup.advance(CleanupEvent::Removed(Ok(())));
    assert_eq!(cleanup.action(), CleanupAction::Inspect(1));
    cleanup.advance(CleanupEvent::Found(Ok(LINK)));
    assert_eq!(cleanup.action(), CleanupAction::Unlink(1));
    cleanup.advance(CleanupEvent::Removed(Ok(())));
    cleanup.advance(CleanupEvent::Found(Ok(DIRECTORY)));
    assert_eq!(cleanup.action(), CleanupAction::Descend(2));
    cleanup.advance(CleanupEvent::Entered(Ok(())));
    listed(&mut cleanup, 1);
    assert_eq!(cleanup.action(), CleanupAction::Inspect(0));
    // Somebody else was faster.
    cleanup.advance(CleanupEvent::Found(missing()));
    assert_eq!(cleanup.action(), CleanupAction::RemoveChild(2));
    cleanup.advance(CleanupEvent::Removed(Ok(())));
    assert_eq!(cleanup.action(), CleanupAction::Finish);
    // A report that answers nothing changes nothing.
    cleanup.advance(CleanupEvent::Listed);
    assert_eq!(cleanup.action(), CleanupAction::Finish);
    assert_eq!(fs.mount_cleared(cleanup), Ok(()));
}

#[test]
fn a_cleanup_ends_at_the_first_failure() {
    let (mut fs, _temp) = standard();
    let fail = |events: Vec<CleanupEvent>, fs: &mut CapFs| {
        let mut cleanup = fs.clear_mount(4).unwrap();
        for event in events {
            cleanup.advance(event);
        }
        assert_eq!(cleanup.action(), CleanupAction::Finish);
        fs.mount_cleared(cleanup)
    };
    let denied = || failure(IoErrorKind::PermissionDenied);
    let first = || vec![CleanupEvent::Entry(Ok(())), CleanupEvent::Listed];
    let with = |event: CleanupEvent| {
        let mut events = first();
        events.push(event);
        events
    };
    assert_eq!(
        fail(vec![CleanupEvent::Entry(Err(denied()))], &mut fs),
        Err(FsError::Access)
    );
    assert_eq!(
        fail(with(CleanupEvent::Found(Err(denied()))), &mut fs),
        Err(FsError::Access)
    );
    let mut events = with(CleanupEvent::Found(Ok(FILE)));
    events.push(CleanupEvent::Removed(Err(denied())));
    assert_eq!(fail(events, &mut fs), Err(FsError::Access));
    let mut events = with(CleanupEvent::Found(Ok(DIRECTORY)));
    events.push(CleanupEvent::Entered(Err(denied())));
    assert_eq!(fail(events, &mut fs), Err(FsError::Access));
    let mut events = with(CleanupEvent::Found(Ok(DIRECTORY)));
    events.push(CleanupEvent::Entered(Ok(())));
    events.push(CleanupEvent::Listed);
    events.push(CleanupEvent::Removed(Err(failure(
        IoErrorKind::DirectoryNotEmpty,
    ))));
    assert_eq!(fail(events, &mut fs), Err(FsError::NotEmpty));
}

#[test]
fn a_cleanup_keeps_its_bounds() {
    let (fs, _temp) = mounted(FilesystemLimits {
        max_cleanup_entries: 2,
        max_recursive_depth: 1,
        ..FilesystemLimits::default()
    });
    let mut cleanup = fs.clear_mount(4).unwrap();
    listed(&mut cleanup, 1);
    cleanup.advance(CleanupEvent::Found(Ok(DIRECTORY)));
    cleanup.advance(CleanupEvent::Entered(Ok(())));
    listed(&mut cleanup, 1);
    cleanup.advance(CleanupEvent::Found(Ok(DIRECTORY)));
    assert_eq!(cleanup.action(), CleanupAction::Finish);
    let mut fs = fs;
    assert_eq!(fs.mount_cleared(cleanup), Err(FsError::Quota));

    let mut cleanup = fs.clear_mount(4).unwrap();
    for _ in 0..3 {
        cleanup.advance(CleanupEvent::Entry(Ok(())));
    }
    assert_eq!(cleanup.action(), CleanupAction::Finish);
    assert_eq!(fs.mount_cleared(cleanup), Err(FsError::Quota));
}

#[test]
fn clearing_is_confined_to_its_mount() {
    let (mut fs, temp) = standard();
    let output_dir = open_directory(&mut fs, &temp, 4, "d").unwrap();
    let output_file = open_file(&mut fs, output_dir, "f").unwrap();
    let work_file = open_file(&mut fs, 5, "f").unwrap();
    let work_stream = fs.create_read_stream(work_file, 0).unwrap();
    let output_stream = fs.create_read_stream(output_file, 0).unwrap();
    assert_eq!(fs.clear_mount(3).err(), Some(FsError::NotPermitted));
    assert_eq!(fs.clear_mount(5).err(), Some(FsError::NotPermitted));
    assert_eq!(
        fs.clear_mount(output_dir).err(),
        Some(FsError::BadDescriptor)
    );

    let mut cleanup = fs.clear_mount(4).unwrap();
    cleanup.advance(CleanupEvent::Listed);
    assert_eq!(fs.mount_cleared(cleanup), Ok(()));
    assert!(!fs.is_directory(output_dir) && !fs.is_file(output_file));
    assert!(!fs.has_stream(output_stream));
    assert!(fs.is_file(work_file) && fs.has_stream(work_stream));
    assert!(fs.is_directory(4));
    // Numbers continue right above those in use.
    assert_eq!(open_file(&mut fs, 5, "g"), Ok(work_stream + 1));
}

#[test]
fn a_sweep_visits_every_ephemeral_mount_and_stops_at_a_failure() {
    let temp = tempfile::tempdir().unwrap();
    let (fs, _temp) = mounted(FilesystemLimits {
        max_creations_per_run: 1,
        ..FilesystemLimits::default()
    });
    let mut fs = fs.with_temp_dir(host_dir(&temp, &["/", "t"])).unwrap();
    assert!(fs.create_directory_at(4, "d").is_ok());
    let mut sweep = fs.prepare_for_run();
    let mut visited = Vec::new();
    while let Some(mut cleanup) = fs.next_mount(&sweep) {
        visited.push(cleanup.mount_fd());
        cleanup.advance(CleanupEvent::Listed);
        fs.mount_swept(&mut sweep, cleanup);
    }
    assert_eq!(visited, vec![4, 6]);
    // The budget is as it was until the run is prepared.
    assert_eq!(
        fs.create_directory_at(4, "d").err(),
        Some(FsError::Quota)
    );
    assert_eq!(fs.run_prepared(sweep), Ok(()));
    assert!(fs.create_directory_at(4, "d").is_ok());

    let mut sweep = fs.prepare_for_run();
    let mut cleanup = fs.next_mount(&sweep).unwrap();
    cleanup.advance(CleanupEvent::Entry(Err(failure(
        IoErrorKind::PermissionDenied,
    ))));
    fs.mount_swept(&mut sweep, cleanup);
    assert!(fs.next_mount(&sweep).is_none());
    assert_eq!(fs.run_prepared(sweep), Err(FsError::Access));
    assert_eq!(
        fs.create_directory_at(4, "d").err(),
        Some(FsError::Quota)
    );
    assert_eq!(CapFs::new().clear().result(), Ok(()));
}

#[test]
fn the_builder_plans_what_was_chosen() {
    let plan = SandboxBuilder::<_, u8>::new().guest("guest").build();
    assert_eq!(plan.guest, "guest");
    assert_eq!(plan.config.heap_size, 25 * 1024 * 1024);
    assert_eq!(plan.config.stack_size, 35 * 1024 * 1024);
    assert_eq!(plan.config.module_file, "");
    assert_eq!(plan.tools, None);
    assert!(plan.mounts.is_empty());
    assert_eq!(*plan.filesystem.limits(), FilesystemLimits::default());

    let limits = FilesystemLimits {
        max_open_streams: 7,
        ..FilesystemLimits::default()
    };
    let plan = SandboxBuilder::default()
        .module_file("guest.aot".to_string())
        .heap_size(1)
        .stack_size(2)
        .with_tools(9u8)
        .temp_output()
        .temp_dir()
        .filesystem_limits(limits)
        .guest(())
        .build();
    assert_eq!(plan.config.module_file, "guest.aot");
    assert_eq!((plan.config.heap_size, plan.config.stack_size), (1, 2));
    assert_eq!(plan.tools, Some(9));
    assert_eq!(*plan.filesystem.limits(), limits);
    assert!(matches!(
        plan.mounts.as_slice(),
        [MountRequest::TempOutput, MountRequest::Temp]
    ));

    // A chosen output directory goes before a temporary one.
    let plan = SandboxBuilder::<_, ()>::new()
        .temp_output()
        .output_dir("/o".into(), DirPerms::READ, FilePerms::WRITE)
        .build();
    assert!(matches!(
        plan.mounts.as_slice(),
        [MountRequest::Output(path, DirPerms::READ, FilePerms::WRITE)] if path.as_path() == std::path::Path::new("/o")
    ));
    let plan = SandboxBuilder::<_, ()>::for_platform(true).guest(()).build();
    assert_eq!(plan.config.heap_size, 400 * 1024 * 1024);
    assert_eq!(plan.config.stack_size, 200 * 1024 * 1024);
    assert!(plan.mounts.is_empty());
    let windows = SandboxConfig::for_platform(true);
    assert_eq!(windows.heap_size, 400 * 1024 * 1024);
    assert_eq!(windows.stack_size, 200 * 1024 * 1024);
}

#[test]
fn snapshots_share_what_they_captured() {
    let state = std::sync::Arc::new(vec![1, 2, 3]);
    let snapshot = Snapshot::new("wasm", state.clone());
    let copy = snapshot.clone();
    assert_eq!((snapshot.kind(), copy.kind()), ("wasm", "wasm"));
    assert_eq!(**copy.snapshot(), vec![1, 2, 3]);
    assert!(std::sync::Arc::ptr_eq(copy.snapshot(), &state));
}

#[test]
fn refused_requests_change_nothing() {
    let (mut fs, _temp) = mounted(FilesystemLimits {
        max_open_descriptors: 4,
        max_creations_per_run: 1,
        max_read_bytes_per_run: 3,
        max_written_bytes_per_run: 3,
        ..FilesystemLimits::default()
    });
    let file = open_file(&mut fs, 4, "f").unwrap();
    // The table is full, so nothing is created and nothing charged.
    let op = fs.open_at(4, "new", OpenFlags::CREATE).unwrap();
    assert_eq!(fs.open_probed(op, missing()).err(), Some(FsError::Quota));
    assert_eq!(fs.write_file(file, 0, b"abcd").err(), Some(FsError::Quota));
    let request = fs.read_file(file, 0, 4).unwrap();
    assert_eq!(fs.read_sized(request, Ok(10)).err(), Some(FsError::Quota));
    assert!(fs.create_read_stream(4, 0).is_err());

    assert!(fs.create_directory_at(4, "d").is_ok());
    assert!(fs.write_file(file, 0, b"abc").is_ok());
    let request = fs.read_file(file, 0, 3).unwrap();
    assert!(fs.read_sized(request, Ok(10)).is_ok());
    // The next handle is the one right after the file's.
    assert_eq!(fs.create_read_stream(file, 0), Ok(file + 1));
}
