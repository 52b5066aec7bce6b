//! The path jail of the backend that serves a directory of the host.

use crate::backend::{lexiclean_result, normalize_path, spec_escapes};
use crate::error::Error;
use vstd::prelude::*;
use vstd::string::StringExecFns;
use vstd::utf8::encode_utf8;

verus! {

/// A backend rooted at a directory of the host: every path that a client
/// names is kept below the root.
#[derive(Clone, Debug)]
pub struct Filesystem {
    root: String,
}

/// One change to a file's metadata.
#[derive(Clone, Copy, Debug, PartialEq, Eq, Structural)]
pub enum MetadataChange {
    Owner { uid: u32, gid: u32 },
    Permissions { mode: u32 },
    Times { atime: u32, mtime: u32 },
}

impl Filesystem {
    /// The root.
    pub closed spec fn spec_root(&self) -> Seq<char> {
        self.root@
    }

    /// The root is an absolute path.
    pub open spec fn wf(&self) -> bool {
        spec_is_absolute(self.spec_root())
    }

    /// The path under the root that stands for the path `cleaned`, which is
    /// lexically clean: the root, a slash, and `cleaned`.
    pub open spec fn spec_jailed(&self, cleaned: Seq<char>) -> Seq<char> {
        self.spec_root() + seq!['/'] + cleaned
    }

    /// A backend rooted at `root`, which must be an absolute path; the caller
    /// has resolved it against the host's file system once.
    pub fn new(root: &str) -> (r: Result<Self, Error>)
        ensures
            match r {
                Ok(fs) => fs.spec_root() == root@ && fs.wf(),
                Err(e) => e == Error::InvalidPath && !spec_is_absolute(root@),
            },
    {
        let bytes = root.as_bytes();
        if bytes.len() == 0 || bytes[0] != 0x2f {
            return Err(Error::InvalidPath);
        }
        Ok(Filesystem { root: root.to_owned() })
    }

    /// The root.
    pub fn root(&self) -> (r: &str)
        ensures
            r@ == self.spec_root(),
    {
        self.root.as_str()
    }

    /// The path of the host that the path `path` of a client stands for: the
    /// root, a slash, and the lexically clean form of `path`. A path whose
    /// clean form climbs out of where it starts, or holds a zero byte, is
    /// refused.
    pub fn full_normalize_path(&self, path: &str) -> (r: Result<String, Error>)
        ensures
            match r {
                Ok(p) => {
                    &&& p@ == self.spec_jailed(lexiclean_result(path@))
                    &&& !spec_escapes(encode_utf8(lexiclean_result(path@)))
                },
                Err(e) => e == Error::InvalidPath && spec_escapes(
                    encode_utf8(lexiclean_result(path@)),
                ),
            },
    {
        let cleaned = normalize_path(path)?;
        let mut full = self.root.clone();
        full.append("/");
        full.append(cleaned.as_str());
        proof {
            reveal_strlit("/");
            assert("/"@ =~= seq!['/']);
        }
        Ok(full)
    }

    /// The changes that a request to set metadata asks for, in the order in
    /// which they are made: the owner, the permissions, the times.
    pub open spec fn spec_changes(
        uid_and_gid: Option<(u32, u32)>,
        permissions: Option<u32>,
        atime_and_mtime: Option<(u32, u32)>,
    ) -> Seq<MetadataChange> {
        (match uid_and_gid {
            Some((uid, gid)) => seq![MetadataChange::Owner { uid, gid }],
            None => Seq::empty(),
        }) + (match permissions {
            Some(mode) => seq![MetadataChange::Permissions { mode }],
            None => Seq::empty(),
        }) + (match atime_and_mtime {
            Some((atime, mtime)) => seq![MetadataChange::Times { atime, mtime }],
            None => Seq::empty(),
        })
    }

    /// The changes that a request to set metadata asks for, in the order in
    /// which they are made.
    pub fn set_metadata(
        uid_and_gid: Option<(u32, u32)>,
        permissions: Option<u32>,
        atime_and_mtime: Option<(u32, u32)>,
    ) -> (r: Vec<MetadataChange>)
        ensures
            r@ == Self::spec_changes(uid_and_gid, permissions, atime_and_mtime),
    {
        let mut changes: Vec<MetadataChange> = Vec::new();
        if let Some((uid, gid)) = uid_and_gid {
            changes.push(MetadataChange::Owner { uid, gid });
        }
        if let Some(mode) = permissions {
            changes.push(MetadataChange::Permissions { mode });
        }
        if let Some((atime, mtime)) = atime_and_mtime {
            changes.push(MetadataChange::Times { atime, mtime });
        }
        assert(changes@ =~= Self::spec_changes(uid_and_gid, permissions, atime_and_mtime));
        changes
    }
}

/// The path `root` is absolute: its first byte is a slash.
pub open spec fn spec_is_absolute(root: Seq<char>) -> bool {
    encode_utf8(root).len() > 0 && encode_utf8(root)[0] == 0x2f
}

/// The jail holds: a path that the backend hands to the host starts with the
/// root and a slash, and what follows them has no component of two dots and
/// no zero byte, so it names nothing above the root.
pub proof fn lemma_jail_confines(fs: Filesystem, cleaned: Seq<char>)
    requires
        !spec_escapes(encode_utf8(cleaned)),
    ensures
        ({
            let full = fs.spec_jailed(cleaned);
            let n = fs.spec_root().len() + 1;
            &&& full.len() == n + cleaned.len()
            &&& full.take(n as int) == fs.spec_root() + seq!['/']
            &&& full.skip(n as int) == cleaned
            &&& !spec_escapes(encode_utf8(full.skip(n as int)))
        }),
{
    let full = fs.spec_jailed(cleaned);
    let n = fs.spec_root().len() + 1;
    assert(full.take(n as int) =~= fs.spec_root() + seq!['/']);
    assert(full.skip(n as int) =~= cleaned);
}

} // verus!
