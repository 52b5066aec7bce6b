//! What a backend knows of one file.

use vstd::prelude::*;

verus! {

/// What a backend reports of a file or directory. Times are whole seconds
/// since the epoch.
#[derive(Debug)]
pub struct Metadata {
    pub path: String,
    pub size: u64,
    pub is_dir: bool,
    pub is_file: bool,
    pub link_target: Option<String>,
    pub uid: u32,
    pub gid: u32,
    pub permissions: u32,
    pub atime: i64,
    pub mtime: i64,
}

/// A [`Metadata`] as contracts see it.
pub struct MetadataView {
    pub path: Seq<char>,
    pub size: u64,
    pub is_dir: bool,
    pub is_file: bool,
    pub link_target: Option<Seq<char>>,
    pub uid: u32,
    pub gid: u32,
    pub permissions: u32,
    pub atime: i64,
    pub mtime: i64,
}

impl View for Metadata {
    type V = MetadataView;

    open spec fn view(&self) -> MetadataView {
        MetadataView {
            path: self.path@,
            size: self.size,
            is_dir: self.is_dir,
            is_file: self.is_file,
            link_target: match self.link_target {
                Some(t) => Some(t@),
                None => None,
            },
            uid: self.uid,
            gid: self.gid,
            permissions: self.permissions,
            atime: self.atime,
            mtime: self.mtime,
        }
    }
}

impl Clone for Metadata {
    fn clone(&self) -> (r: Self)
        ensures
            r@ == self@,
    {
        Metadata {
            path: self.path.clone(),
            size: self.size,
            is_dir: self.is_dir,
            is_file: self.is_file,
            link_target: match &self.link_target {
                Some(t) => Some(t.clone()),
                None => None,
            },
            uid: self.uid,
            gid: self.gid,
            permissions: self.permissions,
            atime: self.atime,
            mtime: self.mtime,
        }
    }
}

impl Metadata {
    /// A record of the given values.
    pub fn new(
        path: &str,
        size: u64,
        is_dir: bool,
        is_file: bool,
        link_target: Option<&str>,
        uid: u32,
        gid: u32,
        permissions: u32,
        atime: i64,
        mtime: i64,
    ) -> (r: Self)
        ensures
            r@ == (MetadataView {
                path: path@,
                size,
                is_dir,
                is_file,
                link_target: match link_target {
                    Some(t) => Some(t@),
                    None => None,
                },
                uid,
                gid,
                permissions,
                atime,
                mtime,
            }),
    {
        Metadata {
            path: path.to_owned(),
            size,
            is_dir,
            is_file,
            link_target: match link_target {
                Some(t) => Some(t.to_owned()),
                None => None,
            },
            uid,
            gid,
            permissions,
            atime,
            mtime,
        }
    }
}

} // verus!
