//! The attribute record that travels with files, and where it comes from.

use crate::number::{
    be_u32, be_u64, lemma_concat_assoc, lemma_read_u32_is_encoding, lemma_read_u32_of_encoding,
    lemma_read_u64_is_encoding, lemma_read_u64_of_encoding, put_u32, put_u64, spec_be_u32,
    spec_be_u64, spec_read_u32, spec_read_u64,
};
use vstd::prelude::*;

pub mod metadata;

pub use metadata::Metadata;

verus! {

/// The record carries a size.
pub const ATTR_SIZE: u32 = 0x0000_0001;

/// The record carries an owner and a group.
pub const ATTR_UIDGID: u32 = 0x0000_0002;

/// The record carries permission bits.
pub const ATTR_PERMISSIONS: u32 = 0x0000_0004;

/// The record carries the times of last access and last change.
pub const ATTR_ACMODTIME: u32 = 0x0000_0008;

/// The sender appended extension records; none is ever written here.
pub const ATTR_EXTENDED: u32 = 0x8000_0000;

/// The type bits that mark a directory among permission bits.
pub const MODE_DIRECTORY: u32 = 0o040000;

/// The flag word in front of an attribute record. Every bit of an incoming
/// word is kept.
#[derive(Clone, Copy, Debug, PartialEq, Eq, Hash, Structural)]
pub struct FileAttrFlags {
    pub bits: u32,
}

impl FileAttrFlags {
    /// Whether every bit of `mask` is set.
    pub open spec fn spec_contains(&self, mask: u32) -> bool {
        self.bits & mask == mask
    }

    /// Whether every bit of `mask` is set.
    #[verifier::when_used_as_spec(spec_contains)]
    pub fn contains(&self, mask: u32) -> (r: bool)
        ensures
            r == self.spec_contains(mask),
    {
        self.bits & mask == mask
    }

    /// The flag word made of `bits`, all of them kept.
    pub fn from_bits(bits: u32) -> (r: Self)
        ensures
            r.bits == bits,
    {
        FileAttrFlags { bits }
    }

    /// The word itself.
    pub fn bits(&self) -> (r: u32)
        ensures
            r == self.bits,
    {
        self.bits
    }

    /// Sets the bits of `mask`, or clears them.
    pub fn set(&mut self, mask: u32, value: bool)
        ensures
            final(self).bits == if value {
                old(self).bits | mask
            } else {
                old(self).bits & !mask
            },
    {
        if value {
            self.bits = self.bits | mask;
        } else {
            self.bits = self.bits & !mask;
        }
    }
}

impl Default for FileAttrFlags {
    fn default() -> (r: Self)
        ensures
            r.bits == 0,
    {
        FileAttrFlags { bits: 0 }
    }
}

/// File attributes as the protocol carries them: a flag word, and the fields
/// that the flags announce.
#[derive(Clone, Copy, Debug, PartialEq, Eq)]
pub struct FileAttributes {
    pub flags: FileAttrFlags,
    pub size: Option<u64>,
    pub uid: Option<u32>,
    pub gid: Option<u32>,
    pub permissions: Option<u32>,
    pub atime: Option<u32>,
    pub mtime: Option<u32>,
}

/// Setting one of the four field flags sets that flag and leaves every other
/// flag as it was.
pub proof fn lemma_set_flag(b: u32)
    by (bit_vector)
    ensures
        (b | 1u32) & 1u32 == 1u32,
        ((b | 1u32) & 2u32 == 2u32) == (b & 2u32 == 2u32),
        ((b | 1u32) & 4u32 == 4u32) == (b & 4u32 == 4u32),
        ((b | 1u32) & 8u32 == 8u32) == (b & 8u32 == 8u32),
        ((b | 1u32) & 0x8000_0000u32 == 0x8000_0000u32) == (b & 0x8000_0000u32 == 0x8000_0000u32),
        (b | 2u32) & 2u32 == 2u32,
        ((b | 2u32) & 1u32 == 1u32) == (b & 1u32 == 1u32),
        ((b | 2u32) & 4u32 == 4u32) == (b & 4u32 == 4u32),
        ((b | 2u32) & 8u32 == 8u32) == (b & 8u32 == 8u32),
        ((b | 2u32) & 0x8000_0000u32 == 0x8000_0000u32) == (b & 0x8000_0000u32 == 0x8000_0000u32),
        (b | 4u32) & 4u32 == 4u32,
        ((b | 4u32) & 1u32 == 1u32) == (b & 1u32 == 1u32),
        ((b | 4u32) & 2u32 == 2u32) == (b & 2u32 == 2u32),
        ((b | 4u32) & 8u32 == 8u32) == (b & 8u32 == 8u32),
        ((b | 4u32) & 0x8000_0000u32 == 0x8000_0000u32) == (b & 0x8000_0000u32 == 0x8000_0000u32),
        (b | 8u32) & 8u32 == 8u32,
        ((b | 8u32) & 1u32 == 1u32) == (b & 1u32 == 1u32),
        ((b | 8u32) & 2u32 == 2u32) == (b & 2u32 == 2u32),
        ((b | 8u32) & 4u32 == 4u32) == (b & 4u32 == 4u32),
        ((b | 8u32) & 0x8000_0000u32 == 0x8000_0000u32) == (b & 0x8000_0000u32 == 0x8000_0000u32),
{
}

/// Masking the extension flag out clears it, leaves the four field flags as
/// they were, and changes nothing where the flag was clear.
pub proof fn lemma_mask_extended(b: u32)
    by (bit_vector)
    ensures
        ((b & !0x8000_0000u32) & 1u32 == 1u32) == (b & 1u32 == 1u32),
        ((b & !0x8000_0000u32) & 2u32 == 2u32) == (b & 2u32 == 2u32),
        ((b & !0x8000_0000u32) & 4u32 == 4u32) == (b & 4u32 == 4u32),
        ((b & !0x8000_0000u32) & 8u32 == 8u32) == (b & 8u32 == 8u32),
        (b & !0x8000_0000u32) & 0x8000_0000u32 != 0x8000_0000u32,
        b & 0x8000_0000u32 != 0x8000_0000u32 ==> b & !0x8000_0000u32 == b,
        (b & !0x8000_0000u32) & !0x8000_0000u32 == b & !0x8000_0000u32,
        0u32 & 1u32 != 1u32,
        0u32 & 2u32 != 2u32,
        0u32 & 4u32 != 4u32,
        0u32 & 8u32 != 8u32,
        0u32 & 0x8000_0000u32 != 0x8000_0000u32,
{
}

impl FileAttributes {
    /// The fields are there exactly where the flags announce them.
    pub open spec fn wf(&self) -> bool {
        &&& (self.size is Some) == self.flags.contains(ATTR_SIZE)
        &&& (self.uid is Some) == self.flags.contains(ATTR_UIDGID)
        &&& (self.gid is Some) == self.flags.contains(ATTR_UIDGID)
        &&& (self.permissions is Some) == self.flags.contains(ATTR_PERMISSIONS)
        &&& (self.atime is Some) == self.flags.contains(ATTR_ACMODTIME)
        &&& (self.mtime is Some) == self.flags.contains(ATTR_ACMODTIME)
    }

    /// The record with no flag and no field.
    pub open spec fn spec_new() -> FileAttributes {
        FileAttributes {
            flags: FileAttrFlags { bits: 0 },
            size: None,
            uid: None,
            gid: None,
            permissions: None,
            atime: None,
            mtime: None,
        }
    }

    /// This record as serializing and parsing it again gives it back: the
    /// extension flag cleared, all else the same.
    pub open spec fn without_extended(self) -> FileAttributes {
        FileAttributes { flags: FileAttrFlags { bits: self.flags.bits & !ATTR_EXTENDED }, ..self }
    }

    /// The record on the wire: the flag word with the extension flag masked
    /// out, then each announced field in the order size, owner and group,
    /// permissions, times. A field that is announced but missing is written
    /// as zero.
    pub open spec fn spec_serialize(self) -> Seq<u8> {
        spec_be_u32(self.flags.bits & !ATTR_EXTENDED) + self.spec_fields()
    }

    /// The size on the wire, where it is announced.
    pub open spec fn spec_size_field(self) -> Seq<u8> {
        if self.flags.contains(ATTR_SIZE) {
            spec_be_u64(self.size.unwrap_or(0))
        } else {
            Seq::<u8>::empty()
        }
    }

    /// The owner and the group on the wire, where they are announced.
    pub open spec fn spec_owner_fields(self) -> Seq<u8> {
        if self.flags.contains(ATTR_UIDGID) {
            spec_be_u32(self.uid.unwrap_or(0)) + spec_be_u32(self.gid.unwrap_or(0))
        } else {
            Seq::<u8>::empty()
        }
    }

    /// The permission bits on the wire, where they are announced.
    pub open spec fn spec_permissions_field(self) -> Seq<u8> {
        if self.flags.contains(ATTR_PERMISSIONS) {
            spec_be_u32(self.permissions.unwrap_or(0))
        } else {
            Seq::<u8>::empty()
        }
    }

    /// The two times on the wire, where they are announced.
    pub open spec fn spec_time_fields(self) -> Seq<u8> {
        if self.flags.contains(ATTR_ACMODTIME) {
            spec_be_u32(self.atime.unwrap_or(0)) + spec_be_u32(self.mtime.unwrap_or(0))
        } else {
            Seq::<u8>::empty()
        }
    }

    /// The announced fields on the wire, without the flag word.
    pub open spec fn spec_fields(self) -> Seq<u8> {
        self.spec_size_field() + (self.spec_owner_fields() + (self.spec_permissions_field()
            + self.spec_time_fields()))
    }

    /// The number of bytes of the record on the wire.
    pub open spec fn spec_binsize(self) -> nat {
        (4 + (if self.flags.contains(ATTR_SIZE) {
            8int
        } else {
            0
        }) + (if self.flags.contains(ATTR_UIDGID) {
            8int
        } else {
            0
        }) + (if self.flags.contains(ATTR_PERMISSIONS) {
            4int
        } else {
            0
        }) + (if self.flags.contains(ATTR_ACMODTIME) {
            8int
        } else {
            0
        })) as nat
    }

    /// Reading a record off the front of `s`: what is left, and the record.
    /// Only the fields whose flag is set are read; every bit of the flag word
    /// is kept.
    pub open spec fn spec_parse(s: Seq<u8>) -> Option<(Seq<u8>, FileAttributes)> {
        match spec_read_u32(s) {
            None => None,
            Some((s1, bits)) => {
                let flags = FileAttrFlags { bits };
                match Self::spec_parse_size(flags, s1) {
                    None => None,
                    Some((s2, size)) => match Self::spec_parse_pair(flags, ATTR_UIDGID, s2) {
                        None => None,
                        Some((s3, uid, gid)) => match Self::spec_parse_word(
                            flags,
                            ATTR_PERMISSIONS,
                            s3,
                        ) {
                            None => None,
                            Some((s4, permissions)) => match Self::spec_parse_pair(
                                flags,
                                ATTR_ACMODTIME,
                                s4,
                            ) {
                                None => None,
                                Some((s5, atime, mtime)) => Some(
                                    (
                                        s5,
                                        FileAttributes {
                                            flags,
                                            size,
                                            uid,
                                            gid,
                                            permissions,
                                            atime,
                                            mtime,
                                        },
                                    ),
                                ),
                            },
                        },
                    },
                }
            },
        }
    }

    /// The size field, read where its flag is set.
    pub open spec fn spec_parse_size(flags: FileAttrFlags, s: Seq<u8>) -> Option<
        (Seq<u8>, Option<u64>),
    > {
        if flags.contains(ATTR_SIZE) {
            match spec_read_u64(s) {
                Some((rest, v)) => Some((rest, Some(v))),
                None => None,
            }
        } else {
            Some((s, None))
        }
    }

    /// One 32-bit field, read where the flag `mask` is set.
    pub open spec fn spec_parse_word(flags: FileAttrFlags, mask: u32, s: Seq<u8>) -> Option<
        (Seq<u8>, Option<u32>),
    > {
        if flags.contains(mask) {
            match spec_read_u32(s) {
                Some((rest, v)) => Some((rest, Some(v))),
                None => None,
            }
        } else {
            Some((s, None))
        }
    }

    /// Two 32-bit fields, read where the flag `mask` is set.
    pub open spec fn spec_parse_pair(flags: FileAttrFlags, mask: u32, s: Seq<u8>) -> Option<
        (Seq<u8>, Option<u32>, Option<u32>),
    > {
        if flags.contains(mask) {
            match spec_read_u32(s) {
                Some((s1, a)) => match spec_read_u32(s1) {
                    Some((s2, b)) => Some((s2, Some(a), Some(b))),
                    None => None,
                },
                None => None,
            }
        } else {
            Some((s, None, None))
        }
    }

    /// A record with no flag and no field.
    pub fn new() -> (r: Self)
        ensures
            r == Self::spec_new(),
            r.wf(),
    {
        proof {
            lemma_mask_extended(0);
        }
        FileAttributes {
            flags: FileAttrFlags::from_bits(0),
            size: None,
            uid: None,
            gid: None,
            permissions: None,
            atime: None,
            mtime: None,
        }
    }

    /// Announces and stores a size.
    pub fn set_size(&mut self, size: u64)
        ensures
            *final(self) == (FileAttributes {
                flags: FileAttrFlags { bits: old(self).flags.bits | ATTR_SIZE },
                size: Some(size),
                ..*old(self)
            }),
            old(self).wf() ==> final(self).wf(),
            final(self).flags.contains(ATTR_SIZE),
    {
        proof {
            lemma_set_flag(self.flags.bits);
        }
        self.flags.set(ATTR_SIZE, true);
        self.size = Some(size);
    }

    /// The owner and the group, where the record announces them.
    pub fn get_uid_gid(&self) -> (r: Option<(u32, u32)>)
        requires
            self.flags.contains(ATTR_UIDGID) ==> self.uid is Some && self.gid is Some,
        ensures
            r == if self.flags.contains(ATTR_UIDGID) {
                Some((self.uid->0, self.gid->0))
            } else {
                None
            },
    {
        if self.flags.contains(ATTR_UIDGID) {
            Some((self.uid.unwrap(), self.gid.unwrap()))
        } else {
            None
        }
    }

    /// Announces and stores an owner and a group.
    pub fn set_uid_gid(&mut self, uid: u32, gid: u32)
        ensures
            *final(self) == (FileAttributes {
                flags: FileAttrFlags { bits: old(self).flags.bits | ATTR_UIDGID },
                uid: Some(uid),
                gid: Some(gid),
                ..*old(self)
            }),
            old(self).wf() ==> final(self).wf(),
            final(self).flags.contains(ATTR_UIDGID),
    {
        proof {
            lemma_set_flag(self.flags.bits);
        }
        self.flags.set(ATTR_UIDGID, true);
        self.uid = Some(uid);
        self.gid = Some(gid);
    }

    /// The permission bits, where the record holds any.
    pub fn get_permissions(&self) -> (r: Option<u32>)
        ensures
            r == self.permissions,
    {
        self.permissions
    }

    /// Announces and stores permission bits.
    pub fn set_permissions(&mut self, permissions: u32)
        ensures
            *final(self) == (FileAttributes {
                flags: FileAttrFlags { bits: old(self).flags.bits | ATTR_PERMISSIONS },
                permissions: Some(permissions),
                ..*old(self)
            }),
            old(self).wf() ==> final(self).wf(),
            final(self).flags.contains(ATTR_PERMISSIONS),
    {
        proof {
            lemma_set_flag(self.flags.bits);
        }
        self.flags.set(ATTR_PERMISSIONS, true);
        self.permissions = Some(permissions);
    }

    /// The times of last access and last change, where the record announces
    /// them.
    pub fn get_atime_mtime(&self) -> (r: Option<(u32, u32)>)
        requires
            self.flags.contains(ATTR_ACMODTIME) ==> self.atime is Some && self.mtime is Some,
        ensures
            r == if self.flags.contains(ATTR_ACMODTIME) {
                Some((self.atime->0, self.mtime->0))
            } else {
                None
            },
    {
        if self.flags.contains(ATTR_ACMODTIME) {
            Some((self.atime.unwrap(), self.mtime.unwrap()))
        } else {
            None
        }
    }

    /// Announces and stores the times of last access and last change.
    pub fn set_atime_mtime(&mut self, atime: u32, mtime: u32)
        ensures
            *final(self) == (FileAttributes {
                flags: FileAttrFlags { bits: old(self).flags.bits | ATTR_ACMODTIME },
                atime: Some(atime),
                mtime: Some(mtime),
                ..*old(self)
            }),
            old(self).wf() ==> final(self).wf(),
            final(self).flags.contains(ATTR_ACMODTIME),
    {
        proof {
            lemma_set_flag(self.flags.bits);
        }
        self.flags.set(ATTR_ACMODTIME, true);
        self.atime = Some(atime);
        self.mtime = Some(mtime);
    }

    /// Reads a record off the front of `i`.
    pub fn parse(i: &[u8]) -> (r: Option<(&[u8], FileAttributes)>)
        ensures
            match r {
                Some((rest, a)) => Self::spec_parse(i@) == Some((rest@, a)),
                None => Self::spec_parse(i@) is None,
            },
    {
        let (mut i, bits) = be_u32(i)?;
        let mut attrs = FileAttributes {
            flags: FileAttrFlags::from_bits(bits),
            size: None,
            uid: None,
            gid: None,
            permissions: None,
            atime: None,
            mtime: None,
        };
        if attrs.flags.contains(ATTR_SIZE) {
            let (i_inner, size) = be_u64(i)?;
            attrs.size = Some(size);
            i = i_inner;
        }
        if attrs.flags.contains(ATTR_UIDGID) {
            let (i_inner, uid) = be_u32(i)?;
            let (i_inner, gid) = be_u32(i_inner)?;
            attrs.uid = Some(uid);
            attrs.gid = Some(gid);
            i = i_inner;
        }
        if attrs.flags.contains(ATTR_PERMISSIONS) {
            let (i_inner, permissions) = be_u32(i)?;
            attrs.permissions = Some(permissions);
            i = i_inner;
        }
        if attrs.flags.contains(ATTR_ACMODTIME) {
            let (i_inner, atime) = be_u32(i)?;
            let (i_inner, mtime) = be_u32(i_inner)?;
            attrs.atime = Some(atime);
            attrs.mtime = Some(mtime);
            i = i_inner;
        }
        Some((i, attrs))
    }

    /// Appends the record to `out`.
    pub fn serialize(&self, out: &mut Vec<u8>)
        ensures
            final(out)@ == old(out)@ + self.spec_serialize(),
    {
        put_u32(out, self.flags.bits() & !ATTR_EXTENDED);
        let ghost s1 = out@;
        if self.flags.contains(ATTR_SIZE) {
            put_u64(out, self.size.unwrap_or(0));
        }
        assert(out@ =~= s1 + self.spec_size_field());
        let ghost s2 = out@;
        if self.flags.contains(ATTR_UIDGID) {
            put_u32(out, self.uid.unwrap_or(0));
            put_u32(out, self.gid.unwrap_or(0));
            proof {
                lemma_concat_assoc(
                    s2,
                    spec_be_u32(self.uid.unwrap_or(0)),
                    spec_be_u32(self.gid.unwrap_or(0)),
                );
            }
        }
        assert(out@ =~= s2 + self.spec_owner_fields());
        let ghost s3 = out@;
        if self.flags.contains(ATTR_PERMISSIONS) {
            put_u32(out, self.permissions.unwrap_or(0));
        }
        assert(out@ =~= s3 + self.spec_permissions_field());
        let ghost s4 = out@;
        if self.flags.contains(ATTR_ACMODTIME) {
            put_u32(out, self.atime.unwrap_or(0));
            put_u32(out, self.mtime.unwrap_or(0));
            proof {
                lemma_concat_assoc(
                    s4,
                    spec_be_u32(self.atime.unwrap_or(0)),
                    spec_be_u32(self.mtime.unwrap_or(0)),
                );
            }
        }
        assert(out@ =~= s4 + self.spec_time_fields());
        proof {
            let f = spec_be_u32(self.flags.bits & !ATTR_EXTENDED);
            let a = self.spec_size_field();
            let b = self.spec_owner_fields();
            let c = self.spec_permissions_field();
            let d = self.spec_time_fields();
            lemma_concat_assoc(s3, c, d);
            lemma_concat_assoc(s2, b, c + d);
            lemma_concat_assoc(s1, a, b + (c + d));
            lemma_concat_assoc(old(out)@, f, a + (b + (c + d)));
        }
    }

    /// The number of bytes of the record on the wire.
    pub fn binsize(&self) -> (r: u32)
        ensures
            r == self.spec_binsize(),
            r == self.spec_serialize().len(),
            4 <= r <= 32,
    {
        let mut size: u32 = 4;
        if self.flags.contains(ATTR_SIZE) {
            size += 8;
        }
        if self.flags.contains(ATTR_UIDGID) {
            size += 8;
        }
        if self.flags.contains(ATTR_PERMISSIONS) {
            size += 4;
        }
        if self.flags.contains(ATTR_ACMODTIME) {
            size += 8;
        }
        proof {
            self.lemma_binsize();
        }
        size
    }

    /// The record on the wire is as long as [`Self::spec_binsize`] says.
    pub proof fn lemma_binsize(self)
        ensures
            self.spec_serialize().len() == self.spec_binsize(),
            self.spec_fields().len() + 4 == self.spec_binsize(),
    {
        lemma_read_u32_of_encoding(self.flags.bits & !ATTR_EXTENDED, Seq::empty());
        lemma_read_u64_of_encoding(self.size.unwrap_or(0), Seq::empty());
        lemma_read_u32_of_encoding(self.uid.unwrap_or(0), Seq::empty());
        lemma_read_u32_of_encoding(self.gid.unwrap_or(0), Seq::empty());
        lemma_read_u32_of_encoding(self.permissions.unwrap_or(0), Seq::empty());
        lemma_read_u32_of_encoding(self.atime.unwrap_or(0), Seq::empty());
        lemma_read_u32_of_encoding(self.mtime.unwrap_or(0), Seq::empty());
    }

    /// Of a record whose fields are where its flags announce them: written
    /// and followed by anything, it reads back as itself with the extension
    /// flag cleared, and leaves exactly what followed.
    pub proof fn lemma_parse_of_serialized(self, rest: Seq<u8>)
        requires
            self.wf(),
        ensures
            Self::spec_parse(self.spec_serialize() + rest) == Some((rest, self.without_extended())),
            self.without_extended().wf(),
            !self.flags.contains(ATTR_EXTENDED) ==> self.without_extended() == self,
    {
        let bits = self.flags.bits;
        let masked = FileAttrFlags { bits: bits & !ATTR_EXTENDED };
        lemma_mask_extended(bits);
        let f = spec_be_u32(masked.bits);
        let a = self.spec_size_field();
        let b = self.spec_owner_fields();
        let c = self.spec_permissions_field();
        let d = self.spec_time_fields();
        let s4 = d + rest;
        let s3 = c + s4;
        let s2 = b + s3;
        let s1 = a + s2;
        lemma_concat_assoc(c, d, rest);
        lemma_concat_assoc(b, c + d, rest);
        lemma_concat_assoc(a, b + (c + d), rest);
        lemma_concat_assoc(f, a + (b + (c + d)), rest);
        assert(self.spec_serialize() + rest == f + s1);
        lemma_read_u32_of_encoding(masked.bits, s1);
        assert(Self::spec_parse_size(masked, s1) == Some((s2, self.size))) by {
            if self.flags.contains(ATTR_SIZE) {
                lemma_read_u64_of_encoding(self.size->0, s2);
            } else {
                assert(s1 =~= s2);
            }
        }
        assert(Self::spec_parse_pair(masked, ATTR_UIDGID, s2) == Some((s3, self.uid, self.gid)))
            by {
            if self.flags.contains(ATTR_UIDGID) {
                lemma_read_u32_of_encoding(self.uid->0, spec_be_u32(self.gid->0) + s3);
                lemma_read_u32_of_encoding(self.gid->0, s3);
                lemma_concat_assoc(spec_be_u32(self.uid->0), spec_be_u32(self.gid->0), s3);
            } else {
                assert(s2 =~= s3);
            }
        }
        assert(Self::spec_parse_word(masked, ATTR_PERMISSIONS, s3) == Some(
            (s4, self.permissions),
        )) by {
            if self.flags.contains(ATTR_PERMISSIONS) {
                lemma_read_u32_of_encoding(self.permissions->0, s4);
            } else {
                assert(s3 =~= s4);
            }
        }
        assert(Self::spec_parse_pair(masked, ATTR_ACMODTIME, s4) == Some(
            (rest, self.atime, self.mtime),
        )) by {
            if self.flags.contains(ATTR_ACMODTIME) {
                lemma_read_u32_of_encoding(self.atime->0, spec_be_u32(self.mtime->0) + rest);
                lemma_read_u32_of_encoding(self.mtime->0, rest);
                lemma_concat_assoc(spec_be_u32(self.atime->0), spec_be_u32(self.mtime->0), rest);
            } else {
                assert(s4 =~= rest);
            }
        }
    }

    /// Whatever reads as a record has its fields where its flags announce
    /// them, and starts with what that record is written as, but for the
    /// extension flag.
    pub proof fn lemma_parsed_is_serialized(s: Seq<u8>)
        requires
            Self::spec_parse(s) is Some,
        ensures
            ({
                let (rest, a) = Self::spec_parse(s)->0;
                &&& a.wf()
                &&& s == spec_be_u32(a.flags.bits) + a.spec_fields() + rest
                &&& s.len() == a.spec_binsize() + rest.len()
                &&& !a.flags.contains(ATTR_EXTENDED) ==> s == a.spec_serialize() + rest
            }),
    {
        let (rest, a) = Self::spec_parse(s)->0;
        let (s1, bits) = spec_read_u32(s)->0;
        let flags = FileAttrFlags { bits };
        let (s2, size) = Self::spec_parse_size(flags, s1)->0;
        let (s3, uid, gid) = Self::spec_parse_pair(flags, ATTR_UIDGID, s2)->0;
        let (s4, permissions) = Self::spec_parse_word(flags, ATTR_PERMISSIONS, s3)->0;
        let (s5, atime, mtime) = Self::spec_parse_pair(flags, ATTR_ACMODTIME, s4)->0;
        assert(s5 == rest);
        lemma_mask_extended(bits);
        lemma_read_u32_is_encoding(s);
        assert(s1 == a.spec_size_field() + s2) by {
            if flags.contains(ATTR_SIZE) {
                lemma_read_u64_is_encoding(s1);
            } else {
                assert(s1 =~= Seq::<u8>::empty() + s2);
            }
        }
        assert(s2 == a.spec_owner_fields() + s3) by {
            if flags.contains(ATTR_UIDGID) {
                lemma_read_u32_is_encoding(s2);
                lemma_read_u32_is_encoding(s2.skip(4));
                lemma_concat_assoc(spec_be_u32(uid->0), spec_be_u32(gid->0), s3);
            } else {
                assert(s2 =~= Seq::<u8>::empty() + s3);
            }
        }
        assert(s3 == a.spec_permissions_field() + s4) by {
            if flags.contains(ATTR_PERMISSIONS) {
                lemma_read_u32_is_encoding(s3);
            } else {
                assert(s3 =~= Seq::<u8>::empty() + s4);
            }
        }
        assert(s4 == a.spec_time_fields() + rest) by {
            if flags.contains(ATTR_ACMODTIME) {
                lemma_read_u32_is_encoding(s4);
                lemma_read_u32_is_encoding(s4.skip(4));
                lemma_concat_assoc(spec_be_u32(atime->0), spec_be_u32(mtime->0), rest);
            } else {
                assert(s4 =~= Seq::<u8>::empty() + rest);
            }
        }
        let f = spec_be_u32(bits);
        let fa = a.spec_size_field();
        let fb = a.spec_owner_fields();
        let fc = a.spec_permissions_field();
        let fd = a.spec_time_fields();
        lemma_concat_assoc(fc, fd, rest);
        lemma_concat_assoc(fb, fc + fd, rest);
        lemma_concat_assoc(fa, fb + (fc + fd), rest);
        assert(s1 == a.spec_fields() + rest);
        lemma_concat_assoc(f, a.spec_fields(), rest);
        lemma_read_u32_of_encoding(bits, Seq::empty());
        a.lemma_binsize();
    }
}

/// The four field flags together are the word 15, and a permission word with
/// the directory bits put in has them.
proof fn lemma_all_flags(p: u32)
    by (bit_vector)
    ensures
        (((0u32 | 1u32) | 2u32) | 4u32) | 8u32 == 15u32,
        15u32 & 1u32 == 1u32,
        15u32 & 2u32 == 2u32,
        15u32 & 4u32 == 4u32,
        15u32 & 8u32 == 8u32,
        15u32 & 0x8000_0000u32 != 0x8000_0000u32,
        (p | 0o040000u32) & 0o040000u32 == 0o040000u32,
{
}

impl FileAttributes {
    /// The attributes that describe `m` to a client: the size, the owner and
    /// the group, the permission bits, with the directory bits put in for a
    /// directory, and the two times cut down to 32 bits.
    pub open spec fn spec_from_metadata(m: metadata::MetadataView) -> FileAttributes {
        FileAttributes {
            flags: FileAttrFlags { bits: 15 },
            size: Some(m.size),
            uid: Some(m.uid),
            gid: Some(m.gid),
            permissions: Some(
                if m.is_dir {
                    m.permissions | MODE_DIRECTORY
                } else {
                    m.permissions
                },
            ),
            atime: Some(m.atime as u32),
            mtime: Some(m.mtime as u32),
        }
    }

    /// The attributes that describe `metadata` to a client.
    pub fn from_metadata(metadata: &Metadata) -> (r: Self)
        ensures
            r == Self::spec_from_metadata(metadata@),
            r.wf(),
            r.flags.contains(ATTR_SIZE) && r.flags.contains(ATTR_UIDGID) && r.flags.contains(
                ATTR_PERMISSIONS,
            ) && r.flags.contains(ATTR_ACMODTIME) && !r.flags.contains(ATTR_EXTENDED),
            metadata.is_dir ==> r.permissions->0 & MODE_DIRECTORY == MODE_DIRECTORY,
    {
        proof {
            lemma_all_flags(metadata.permissions);
        }
        let mut this = Self::new();
        this.set_size(metadata.size);
        this.set_uid_gid(metadata.uid, metadata.gid);
        let mut permissions = metadata.permissions;
        if metadata.is_dir {
            permissions = permissions | MODE_DIRECTORY;
        }
        this.set_permissions(permissions);
        this.set_atime_mtime(
            #[verifier::truncate]
            (metadata.atime as u32),
            #[verifier::truncate]
            (metadata.mtime as u32),
        );
        this
    }

    /// The attributes of a directory carry the directory bits, and the
    /// attributes made of any metadata announce all four fields.
    pub proof fn lemma_from_metadata(m: metadata::MetadataView)
        ensures
            Self::spec_from_metadata(m).wf(),
            !Self::spec_from_metadata(m).flags.contains(ATTR_EXTENDED),
            Self::spec_from_metadata(m).spec_binsize() == 32,
            m.is_dir ==> Self::spec_from_metadata(m).permissions->0 & MODE_DIRECTORY
                == MODE_DIRECTORY,
    {
        lemma_all_flags(m.permissions);
    }
}

impl From<Metadata> for FileAttributes {
    fn from(metadata: Metadata) -> (r: Self) {
        FileAttributes::from_metadata(&metadata)
    }
}

impl vstd::std_specs::convert::FromSpecImpl<Metadata> for FileAttributes {
    open spec fn obeys_from_spec() -> bool {
        true
    }

    open spec fn from_spec(metadata: Metadata) -> Self {
        FileAttributes::spec_from_metadata(metadata@)
    }
}

impl Default for FileAttributes {
    fn default() -> (r: Self)
        ensures
            r == FileAttributes::spec_new(),
    {
        FileAttributes::new()
    }
}

} // verus!
