use hyperlight_sandbox::error::{
    checked, GuestFileError, HostError, IoErrorKind, MountError, OutputPathError,
};
use hyperlight_sandbox::limits::{checked_charge, RunBudget};
use hyperlight_sandbox::random::{
    bytes_from, get_insecure_random_bytes, get_insecure_random_u64, get_random_bytes, get_random_u64,
    insecure_seed, number_from, random_buffer, seed_from, RandomUnavailable, MAX_ALLOC_BYTES,
};
use hyperlight_sandbox::{DirPerms, FilePerms, FsError, OpenFlags, PathFlags};

fn host_error(kind: IoErrorKind) -> HostError {
    HostError {
        kind,
        message: "text".to_string(),
    }
}

#[test]
fn every_kind_of_host_failure_is_classified() {
    let cases = [
        (IoErrorKind::NotFound, FsError::NoEntry),
        (IoErrorKind::PermissionDenied, FsError::Access),
        (IoErrorKind::AlreadyExists, FsError::Exist),
        (IoErrorKind::WouldBlock, FsError::WouldBlock),
        (IoErrorKind::NotADirectory, FsError::NotDirectory),
        (IoErrorKind::IsADirectory, FsError::IsDirectory),
        (IoErrorKind::DirectoryNotEmpty, FsError::NotEmpty),
        (IoErrorKind::ReadOnlyFilesystem, FsError::ReadOnly),
        (IoErrorKind::InvalidInput, FsError::InvalidPath),
        (IoErrorKind::InvalidData, FsError::InvalidPath),
        (IoErrorKind::StorageFull, FsError::InsufficientSpace),
        (IoErrorKind::NotSeekable, FsError::InvalidSeek),
        (IoErrorKind::QuotaExceeded, FsError::Quota),
        (IoErrorKind::FileTooLarge, FsError::FileTooLarge),
        (IoErrorKind::ResourceBusy, FsError::Busy),
        (IoErrorKind::ExecutableFileBusy, FsError::TextFileBusy),
        (IoErrorKind::Deadlock, FsError::Deadlock),
        (IoErrorKind::CrossesDevices, FsError::CrossDevice),
        (IoErrorKind::TooManyLinks, FsError::TooManyLinks),
        (IoErrorKind::InvalidFilename, FsError::NameTooLong),
        (IoErrorKind::ArgumentListTooLong, FsError::NameTooLong),
        (IoErrorKind::Interrupted, FsError::Interrupted),
        (IoErrorKind::Unsupported, FsError::Unsupported),
        (IoErrorKind::OutOfMemory, FsError::InsufficientMemory),
        (IoErrorKind::Other, FsError::Io("text".to_string())),
    ];
    for (kind, expected) in cases {
        assert_eq!(FsError::from_io(host_error(kind)), expected);
        assert_eq!(checked::<()>(Err(host_error(kind))), Err(expected));
    }
    assert_eq!(checked(Ok(5)), Ok(5));
}

#[test]
fn errors_are_shown_by_their_names() {
    let cases = [
        (FsError::Access, "Access"),
        (FsError::BadDescriptor, "BadDescriptor"),
        (FsError::Busy, "Busy"),
        (FsError::CrossDevice, "CrossDevice"),
        (FsError::Deadlock, "Deadlock"),
        (FsError::Exist, "Exist"),
        (FsError::FileTooLarge, "FileTooLarge"),
        (FsError::InsufficientMemory, "InsufficientMemory"),
        (FsError::InsufficientSpace, "InsufficientSpace"),
        (FsError::Interrupted, "Interrupted"),
        (FsError::NotPermitted, "NotPermitted"),
        (FsError::NoEntry, "NoEntry"),
        (FsError::NotDirectory, "NotDirectory"),
        (FsError::IsDirectory, "IsDirectory"),
        (FsError::NotEmpty, "NotEmpty"),
        (FsError::NameTooLong, "NameTooLong"),
        (FsError::Overflow, "Overflow"),
        (FsError::Quota, "Quota"),
        (FsError::ReadOnly, "ReadOnly"),
        (FsError::InvalidSeek, "InvalidSeek"),
        (FsError::TextFileBusy, "TextFileBusy"),
        (FsError::TooManyLinks, "TooManyLinks"),
        (FsError::Unsupported, "Unsupported"),
        (FsError::WouldBlock, "WouldBlock"),
        (FsError::InvalidPath, "InvalidPath"),
        (FsError::SymlinkLoop, "SymlinkLoop"),
        (FsError::Io("x".to_string()), "Io(\"x\")"),
    ];
    for (error, name) in cases {
        assert_eq!(error.debug_text(), name);
        assert_eq!(error.debug_text(), format!("{error:?}"));
    }
}

#[test]
fn failures_by_guest_path_have_their_texts() {
    let path = "/input/a";
    let cases = [
        (GuestFileError::NotAbsolute, "guest path must be absolute: /input/a"),
        (GuestFileError::NoFileName, "path must include a directory and filename: /input/a"),
        (GuestFileError::InvalidPath, "invalid guest path: /input/a"),
        (GuestFileError::NamesDirectory, "guest path must name a file: /input/a"),
        (GuestFileError::NoPreopen, "no preopen for /input"),
        (GuestFileError::DirectoryDenied, "read permission denied on /input"),
        (GuestFileError::FilesDenied, "read permission denied on files in /input"),
        (GuestFileError::NotFound, "file not found: /input/a"),
        (GuestFileError::StatFailed, "failed to stat: /input/a"),
        (
            GuestFileError::TooLarge { size: 12, limit: 7 },
            "file too large (12 bytes, max 7 bytes): /input/a",
        ),
        (GuestFileError::QuotaExceeded, "filesystem read quota exceeded: Quota"),
        (GuestFileError::ReadFailed, "failed to read: /input/a"),
    ];
    for (error, text) in cases {
        assert_eq!(error.message(path), text);
    }
    let path = "/output/a";
    let cases = [
        (OutputPathError::NotRooted, "path must be rooted at /output: /output/a"),
        (OutputPathError::InvalidPath, "invalid path under /output: /output/a"),
        (OutputPathError::NamesDirectory, "output path must name a file: /output/a"),
        (OutputPathError::NoOutput, "no output directory configured"),
        (OutputPathError::DirectoryDenied, "write permission denied on output directory"),
        (OutputPathError::FilesDenied, "write permission denied on output files"),
        (OutputPathError::StatFailed, "failed to stat output file: /output/a"),
        (OutputPathError::CreationQuota, "filesystem creation quota exceeded: Quota"),
        (OutputPathError::WriteQuota, "filesystem write quota exceeded: Quota"),
        (OutputPathError::CreateFailed, "failed to create output file: /output/a"),
        (OutputPathError::WriteFailed, "failed to write output file: /output/a"),
    ];
    for (error, text) in cases {
        assert_eq!(error.message(path), text);
    }
    assert_eq!(MountError::Fs(FsError::Quota).message(), "Quota");
    assert_eq!(
        MountError::Overlap.message(),
        "host directories with different lifetimes must not overlap"
    );
}

#[test]
fn charges_are_all_or_nothing() {
    let mut used = 3;
    assert_eq!(checked_charge(&mut used, 4, 7), Ok(()));
    assert_eq!(used, 7);
    assert_eq!(checked_charge(&mut used, 1, 7), Err(FsError::Quota));
    assert_eq!(used, 7);
    assert_eq!(checked_charge(&mut used, u64::MAX, u64::MAX), Err(FsError::Quota));
    assert_eq!(used, 7);
    assert_eq!(checked_charge(&mut used, 0, 3), Err(FsError::Quota));
    assert_eq!(
        RunBudget::default(),
        RunBudget {
            bytes_read: 0,
            bytes_written: 0,
            creations: 0,
            directory_entries: 0,
        }
    );
}

#[test]
fn permissions_are_sets() {
    assert_eq!(DirPerms::READ | DirPerms::MUTATE, DirPerms::READ_MUTATE);
    assert_eq!(DirPerms::READ | DirPerms::READ, DirPerms::READ);
    assert!((DirPerms::READ | DirPerms::MUTATE).contains(DirPerms::READ));
    assert!(!DirPerms::READ.contains(DirPerms::READ | DirPerms::MUTATE));
    assert!(DirPerms::empty().contains(DirPerms::empty()));
    assert!(!DirPerms::empty().contains(DirPerms::MUTATE));
    assert_eq!(FilePerms::WRITE | FilePerms::READ, FilePerms::READ_WRITE);
    assert!(!FilePerms::WRITE.contains(FilePerms::READ));
    assert!(FilePerms::READ.contains(FilePerms::empty()));
    assert!(PathFlags::SYMLINK_FOLLOW.contains(PathFlags::SYMLINK_FOLLOW));
    assert!(!PathFlags::empty().contains(PathFlags::SYMLINK_FOLLOW));
    let all = OpenFlags::CREATE | OpenFlags::TRUNCATE | OpenFlags::DIRECTORY;
    assert_eq!(all, OpenFlags::CREATE_TRUNCATE_DIRECTORY);
    assert!(all.contains(OpenFlags::CREATE | OpenFlags::DIRECTORY));
    assert!(OpenFlags::CREATE.contains(OpenFlags::OPEN_EXISTING));
    assert!(!OpenFlags::CREATE.contains(OpenFlags::TRUNCATE));
    assert_eq!(OpenFlags::OPEN_EXISTING | OpenFlags::TRUNCATE, OpenFlags::TRUNCATE);
    assert_eq!(
        PathFlags::empty() | PathFlags::SYMLINK_FOLLOW,
        PathFlags::SYMLINK_FOLLOW
    );
    assert_eq!(
        PathFlags::SYMLINK_FOLLOW | PathFlags::empty(),
        PathFlags::SYMLINK_FOLLOW
    );
    assert_eq!(PathFlags::empty() | PathFlags::empty(), PathFlags::empty());
}

#[test]
fn random_bytes_are_capped() {
    assert_eq!(get_random_bytes(0).unwrap(), Vec::<u8>::new());
    let first = get_random_bytes(64).unwrap();
    let second = get_insecure_random_bytes(64).unwrap();
    assert_eq!((first.len(), second.len()), (64, 64));
    assert_ne!(first, vec![0; 64]);
    assert_ne!(first, second);
    assert_eq!(
        get_random_bytes(u64::MAX).unwrap().len() as u64,
        MAX_ALLOC_BYTES
    );
    assert_eq!(random_buffer(3), vec![0, 0, 0]);
    assert_eq!(bytes_from(Ok(vec![7])), Ok(vec![7]));
    assert_eq!(
        bytes_from(Err(getrandom::Error::UNEXPECTED)),
        Err(RandomUnavailable)
    );
    assert_eq!(random_buffer(MAX_ALLOC_BYTES + 1).len() as u64, MAX_ALLOC_BYTES);
}

#[test]
fn random_numbers_are_drawn_anew() {
    let drawn = [
        get_random_u64().unwrap(),
        get_random_u64().unwrap(),
        get_insecure_random_u64().unwrap(),
    ];
    assert!(drawn[0] != drawn[1] || drawn[1] != drawn[2]);
    assert_eq!(number_from(Ok(7)), Ok(7));
    assert_eq!(
        number_from(Err(getrandom::Error::UNSUPPORTED)),
        Err(RandomUnavailable)
    );
    let (a, b) = insecure_seed().unwrap();
    assert_ne!(a, b);
    assert_eq!(seed_from(Ok(1), Ok(2)), Ok((1, 2)));
    assert_eq!(
        seed_from(Err(RandomUnavailable), Ok(2)),
        Err(RandomUnavailable)
    );
    assert_eq!(
        seed_from(Ok(1), Err(RandomUnavailable)),
        Err(RandomUnavailable)
    );
}
