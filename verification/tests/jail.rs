use sftp_server::backend::{check_jailed, normalize_path};
use sftp_server::error::Error;
use sftp_server::file::{advance, IOError, OpenFile};
use sftp_server::common::Metadata;
use sftp_server::filesystem::{Filesystem, MetadataChange};
use sftp_server::server::join_names;

#[test]
fn clean_paths_are_kept() {
    assert_eq!(normalize_path("a/../b"), Ok("b".to_string()));
    assert_eq!(normalize_path("./x/../y"), Ok("y".to_string()));
    assert_eq!(normalize_path(""), Ok(".".to_string()));
    assert_eq!(normalize_path("a/./b//c/"), Ok("a/b/c".to_string()));
    assert_eq!(normalize_path("/a/../../b"), Ok("/b".to_string()));
    assert_eq!(normalize_path("a/..b/c.."), Ok("a/..b/c..".to_string()));
    assert_eq!(normalize_path("..."), Ok("...".to_string()));
}

#[test]
fn paths_that_climb_out_are_refused() {
    assert_eq!(normalize_path(".."), Err(Error::InvalidPath));
    assert_eq!(normalize_path("../x"), Err(Error::InvalidPath));
    assert_eq!(normalize_path("a/../../b"), Err(Error::InvalidPath));
    assert_eq!(normalize_path("./../x"), Err(Error::InvalidPath));
    assert_eq!(normalize_path("a\0b"), Err(Error::InvalidPath));
}

#[test]
fn the_check_reads_whatever_it_is_given() {
    assert_eq!(check_jailed("a/b".to_string()), Ok("a/b".to_string()));
    assert_eq!(check_jailed("a/../b".to_string()), Err(Error::InvalidPath));
    assert_eq!(check_jailed("a/..".to_string()), Err(Error::InvalidPath));
    assert_eq!(check_jailed("..".to_string()), Err(Error::InvalidPath));
    assert_eq!(check_jailed("..a/b..".to_string()), Ok("..a/b..".to_string()));
    assert_eq!(check_jailed("\0".to_string()), Err(Error::InvalidPath));
    assert_eq!(check_jailed(String::new()), Ok(String::new()));
}

#[test]
fn paths_are_joined_under_the_root() {
    let fs = Filesystem::new("/data").unwrap();
    assert_eq!(fs.root(), "/data");
    assert_eq!(fs.full_normalize_path("a/../b"), Ok("/data/b".to_string()));
    assert_eq!(fs.full_normalize_path("x/y"), Ok("/data/x/y".to_string()));
    assert_eq!(fs.full_normalize_path(""), Ok("/data/.".to_string()));
    assert_eq!(fs.full_normalize_path("/etc/passwd"), Ok("/data//etc/passwd".to_string()));
    assert_eq!(fs.full_normalize_path("../etc"), Err(Error::InvalidPath));
    assert_eq!(fs.full_normalize_path("a/../.."), Err(Error::InvalidPath));
}

#[test]
fn the_root_must_be_absolute() {
    assert!(Filesystem::new("/").is_ok());
    assert_eq!(Filesystem::new("data").err(), Some(Error::InvalidPath));
    assert_eq!(Filesystem::new("").err(), Some(Error::InvalidPath));
}

#[test]
fn metadata_changes_come_in_order() {
    assert_eq!(Filesystem::set_metadata(None, None, None), vec![]);
    assert_eq!(
        Filesystem::set_metadata(Some((1, 2)), Some(0o600), Some((3, 4))),
        vec![
            MetadataChange::Owner { uid: 1, gid: 2 },
            MetadataChange::Permissions { mode: 0o600 },
            MetadataChange::Times { atime: 3, mtime: 4 },
        ]
    );
    assert_eq!(
        Filesystem::set_metadata(None, None, Some((3, 4))),
        vec![MetadataChange::Times { atime: 3, mtime: 4 }]
    );
}

#[test]
fn names_are_joined_to_their_directory() {
    assert_eq!(join_names("", "a"), "a");
    assert_eq!(join_names("d", "a"), "d/a");
    assert_eq!(join_names("d/", "a"), "d/a");
    assert_eq!(join_names("/", "a"), "/a");
    assert_eq!(join_names("d\u{e9}", "a"), "d\u{e9}/a");
}

#[test]
fn open_files_keep_their_position() {
    let mut f = OpenFile::new(Metadata::new("p", 1, false, true, None, 0, 0, 0o644, 0, 0));
    assert_eq!(f.pos, 0);
    f.advance(10);
    assert_eq!(f.pos, 10);
    f.seek_complete(u64::MAX - 1);
    f.advance(5);
    assert_eq!(f.pos, u64::MAX);
    assert_eq!(advance(7, 8), 15);
    assert_eq!(advance(u64::MAX, 0), u64::MAX);
    assert_eq!(f.metadata.path, "p");
}

#[test]
fn io_error_texts() {
    assert_eq!(IOError::NoRead.to_string(), "not open for reading");
    assert_eq!(IOError::NoWrite.to_string(), "not open for writing");
}
