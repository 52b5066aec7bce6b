//! The response that lists names: the entries of a directory, or one path.

use crate::common::FileAttributes;
use crate::number::{lemma_concat_assoc, lemma_read_u32_of_encoding};
use crate::util::{
    lemma_read_string_is_encoding, lemma_read_string_of_encoding, parse_string,
    spec_read_string, spec_string, str_with_u32_length,
};
use vstd::prelude::*;
use vstd::utf8::encode_utf8;

verus! {

/// One listed name: the bare name, a display name, and the attributes.
#[derive(Debug, PartialEq, Eq)]
pub struct File {
    pub filename: String,
    pub longname: String,
    pub attrs: FileAttributes,
}

/// A [`File`] as contracts see it.
pub struct FileView {
    pub filename: Seq<char>,
    pub longname: Seq<char>,
    pub attrs: FileAttributes,
}

impl View for File {
    type V = FileView;

    open spec fn view(&self) -> FileView {
        FileView { filename: self.filename@, longname: self.longname@, attrs: self.attrs }
    }
}

impl Clone for File {
    fn clone(&self) -> (r: Self)
        ensures
            r@ == self@,
    {
        File {
            filename: self.filename.clone(),
            longname: self.longname.clone(),
            attrs: self.attrs,
        }
    }
}

impl FileView {
    /// The entry on the wire: the two names as strings, then the attributes.
    pub open spec fn spec_serialize(self) -> Seq<u8> {
        spec_string(self.filename) + (spec_string(self.longname) + self.attrs.spec_serialize())
    }

    /// The number of bytes of the entry on the wire.
    pub open spec fn spec_binsize(self) -> nat {
        4 + encode_utf8(self.filename).len() + 4 + encode_utf8(self.longname).len()
            + self.attrs.spec_binsize()
    }

    /// Both names are short enough for their length to be written, and the
    /// attributes have their fields where the flags announce them.
    pub open spec fn wf(self) -> bool {
        &&& encode_utf8(self.filename).len() <= u32::MAX
        &&& encode_utf8(self.longname).len() <= u32::MAX
        &&& self.attrs.wf()
    }

    /// This entry as serializing and parsing it again gives it back.
    pub open spec fn without_extended(self) -> FileView {
        FileView { attrs: self.attrs.without_extended(), ..self }
    }

    /// Reading an entry off the front of `s`: what is left, and the entry.
    pub open spec fn spec_parse(s: Seq<u8>) -> Option<(Seq<u8>, FileView)> {
        match spec_read_string(s) {
            None => None,
            Some((s1, filename)) => match spec_read_string(s1) {
                None => None,
                Some((s2, longname)) => match FileAttributes::spec_parse(s2) {
                    None => None,
                    Some((s3, attrs)) => Some((s3, FileView { filename, longname, attrs })),
                },
            },
        }
    }

    /// The entry on the wire is as long as [`Self::spec_binsize`] says.
    pub proof fn lemma_binsize(self)
        requires
            encode_utf8(self.filename).len() <= u32::MAX,
            encode_utf8(self.longname).len() <= u32::MAX,
        ensures
            self.spec_serialize().len() == self.spec_binsize(),
            self.spec_binsize() >= 12,
    {
        lemma_read_string_of_encoding(self.filename, Seq::empty());
        lemma_read_string_of_encoding(self.longname, Seq::empty());
        self.attrs.lemma_binsize();
    }

    /// Whatever the names, the entry on the wire has at least twelve bytes.
    pub proof fn lemma_at_least_twelve(self)
        ensures
            self.spec_serialize().len() >= 12 + encode_utf8(self.filename).len() + encode_utf8(
                self.longname,
            ).len(),
    {
        lemma_read_u32_of_encoding(encode_utf8(self.filename).len() as u32, Seq::empty());
        lemma_read_u32_of_encoding(encode_utf8(self.longname).len() as u32, Seq::empty());
        self.attrs.lemma_binsize();
    }

    /// A well-formed entry, written and followed by anything, reads back as
    /// itself with the extension flag cleared.
    pub proof fn lemma_parse_of_serialized(self, rest: Seq<u8>)
        requires
            self.wf(),
        ensures
            Self::spec_parse(self.spec_serialize() + rest) == Some(
                (rest, self.without_extended()),
            ),
            self.without_extended().wf(),
    {
        let a = spec_string(self.filename);
        let b = spec_string(self.longname);
        let c = self.attrs.spec_serialize();
        lemma_concat_assoc(b, c, rest);
        lemma_concat_assoc(a, b + c, rest);
        lemma_read_string_of_encoding(self.filename, b + (c + rest));
        lemma_read_string_of_encoding(self.longname, c + rest);
        self.attrs.lemma_parse_of_serialized(rest);
    }

    /// Reading an entry consumes at least twelve bytes.
    pub proof fn lemma_parsed_len(s: Seq<u8>)
        requires
            Self::spec_parse(s) is Some,
        ensures
            (Self::spec_parse(s)->0).0.len() + 12 <= s.len(),
    {
        let (s1, filename) = spec_read_string(s)->0;
        let (s2, longname) = spec_read_string(s1)->0;
        let (rest, attrs) = FileAttributes::spec_parse(s2)->0;
        lemma_read_string_is_encoding(s);
        lemma_read_string_is_encoding(s1);
        FileAttributes::lemma_parsed_is_serialized(s2);
        lemma_read_string_of_encoding(filename, s1);
        lemma_read_string_of_encoding(longname, s2);
        lemma_read_u32_of_encoding(attrs.flags.bits, Seq::empty());
    }

    /// Whatever reads as an entry is well-formed and, where the extension
    /// flag is clear, starts with what that entry is written as.
    pub proof fn lemma_parsed_is_serialized(s: Seq<u8>)
        requires
            Self::spec_parse(s) is Some,
        ensures
            ({
                let (rest, f) = Self::spec_parse(s)->0;
                &&& f.wf()
                &&& rest.len() < s.len()
                &&& s.len() == f.spec_serialize().len() + rest.len()
                &&& !f.attrs.flags.contains(crate::common::ATTR_EXTENDED) ==> s
                    == f.spec_serialize() + rest
            }),
    {
        let (s1, filename) = spec_read_string(s)->0;
        let (s2, longname) = spec_read_string(s1)->0;
        let (rest, attrs) = FileAttributes::spec_parse(s2)->0;
        lemma_read_string_is_encoding(s);
        lemma_read_string_is_encoding(s1);
        FileAttributes::lemma_parsed_is_serialized(s2);
        lemma_read_string_of_encoding(filename, s1);
        lemma_read_string_of_encoding(longname, s2);
        attrs.lemma_binsize();
        let a = spec_string(filename);
        let b = spec_string(longname);
        if !attrs.flags.contains(crate::common::ATTR_EXTENDED) {
            let c = attrs.spec_serialize();
            lemma_concat_assoc(b, c, rest);
            lemma_concat_assoc(a, b + c, rest);
        }
    }
}

impl File {
    /// The number of bytes of the entry on the wire.
    pub fn binsize(&self) -> (r: u32)
        requires
            self@.spec_binsize() <= u32::MAX,
        ensures
            r == self@.spec_binsize(),
            r == self@.spec_serialize().len(),
    {
        proof {
            self@.lemma_binsize();
        }
        4 + self.filename.as_str().as_bytes().len() as u32 + 4
            + self.longname.as_str().as_bytes().len() as u32 + self.attrs.binsize()
    }

    /// The number of bytes of the entry on the wire, where 32 bits hold it.
    pub fn checked_binsize(&self) -> (r: Option<u32>)
        ensures
            match r {
                Some(n) => n == self@.spec_binsize() && n == self@.spec_serialize().len(),
                None => self@.spec_serialize().len() > u32::MAX,
            },
    {
        proof {
            self@.lemma_at_least_twelve();
        }
        let a = self.filename.as_str().as_bytes().len();
        let b = self.longname.as_str().as_bytes().len();
        if a > 0xffff_ffff || b > 0xffff_ffff {
            return None;
        }
        proof {
            self@.lemma_binsize();
        }
        let total: u64 = 8 + a as u64 + b as u64 + self.attrs.binsize() as u64;
        if total > 0xffff_ffff {
            None
        } else {
            Some(total as u32)
        }
    }

    /// Reads an entry off the front of `i`.
    pub fn parse(i: &[u8]) -> (r: Option<(&[u8], File)>)
        ensures
            match r {
                Some((rest, f)) => FileView::spec_parse(i@) == Some((rest@, f@)),
                None => FileView::spec_parse(i@) is None,
            },
    {
        let (i, filename) = parse_string(i)?;
        let (i, longname) = parse_string(i)?;
        let (i, attrs) = FileAttributes::parse(i)?;
        Some((i, File { filename, longname, attrs }))
    }

    /// Appends the entry to `out`.
    pub fn serialize(&self, out: &mut Vec<u8>)
        requires
            encode_utf8(self.filename@).len() <= u32::MAX,
            encode_utf8(self.longname@).len() <= u32::MAX,
        ensures
            final(out)@ == old(out)@ + self@.spec_serialize(),
    {
        str_with_u32_length(self.filename.as_str(), out);
        str_with_u32_length(self.longname.as_str(), out);
        self.attrs.serialize(out);
        proof {
            let a = spec_string(self.filename@);
            let b = spec_string(self.longname@);
            let c = self.attrs.spec_serialize();
            lemma_concat_assoc(old(out)@ + a, b, c);
            lemma_concat_assoc(old(out)@, a, b + c);
        }
    }
}

/// The entries of a list as contracts see them.
pub open spec fn spec_file_views(files: Seq<File>) -> Seq<FileView> {
    Seq::new(files.len(), |i: int| files[i]@)
}

/// A list of entries on the wire: one entry after the other.
pub open spec fn spec_files(files: Seq<FileView>) -> Seq<u8>
    decreases files.len(),
{
    if files.len() == 0 {
        Seq::<u8>::empty()
    } else {
        files[0].spec_serialize() + spec_files(files.drop_first())
    }
}

/// Reading `count` entries off the front of `s`: what is left, and the entries.
pub open spec fn spec_read_files(s: Seq<u8>, count: nat) -> Option<(Seq<u8>, Seq<FileView>)>
    decreases count,
{
    if count == 0 {
        Some((s, Seq::<FileView>::empty()))
    } else {
        match FileView::spec_parse(s) {
            None => None,
            Some((s1, f)) => match spec_read_files(s1, (count - 1) as nat) {
                None => None,
                Some((s2, fs)) => Some((s2, seq![f] + fs)),
            },
        }
    }
}

/// Every entry of the list is well-formed.
pub open spec fn spec_files_wf(files: Seq<FileView>) -> bool {
    forall|i: int| 0 <= i < files.len() ==> (#[trigger] files[i]).wf()
}

/// No entry of the list has the extension flag set.
pub open spec fn spec_files_plain(files: Seq<FileView>) -> bool {
    forall|i: int|
        0 <= i < files.len() ==> !(#[trigger] files[i]).attrs.flags.contains(
            crate::common::ATTR_EXTENDED,
        )
}

/// The list with the extension flag of every entry cleared.
pub open spec fn spec_files_without_extended(files: Seq<FileView>) -> Seq<FileView> {
    Seq::new(files.len(), |i: int| files[i].without_extended())
}

/// A list with one more entry at its end is written as the list, then the entry.
pub proof fn lemma_files_push(files: Seq<FileView>, f: FileView)
    ensures
        spec_files(files.push(f)) == spec_files(files) + f.spec_serialize(),
    decreases files.len(),
{
    if files.len() == 0 {
        let one = files.push(f);
        assert(one.drop_first() =~= Seq::<FileView>::empty());
        assert(one[0] == f);
        assert(spec_files(one.drop_first()) =~= Seq::<u8>::empty());
        assert(spec_files(files) =~= Seq::<u8>::empty());
        assert(spec_files(one) == f.spec_serialize() + spec_files(one.drop_first()));
        assert(spec_files(one) =~= spec_files(files) + f.spec_serialize());
    } else {
        assert(files.push(f).drop_first() =~= files.drop_first().push(f));
        lemma_files_push(files.drop_first(), f);
        lemma_concat_assoc(
            files[0].spec_serialize(),
            spec_files(files.drop_first()),
            f.spec_serialize(),
        );
    }
}

/// A list on the wire has at least twelve bytes for each entry.
pub proof fn lemma_files_len(files: Seq<FileView>)
    ensures
        spec_files(files).len() >= 12 * files.len(),
    decreases files.len(),
{
    if files.len() > 0 {
        files[0].lemma_at_least_twelve();
        lemma_files_len(files.drop_first());
    }
}

/// A list is at least as long on the wire as any one of its entries.
pub proof fn lemma_files_entry_len(files: Seq<FileView>, i: int)
    requires
        0 <= i < files.len(),
    ensures
        files[i].spec_serialize().len() <= spec_files(files).len(),
    decreases files.len(),
{
    if i > 0 {
        lemma_files_entry_len(files.drop_first(), i - 1);
    }
}

/// A list is at least as long on the wire as any of its prefixes.
pub proof fn lemma_files_prefix_len(files: Seq<FileView>, n: int)
    requires
        0 <= n <= files.len(),
    ensures
        spec_files(files.take(n)).len() <= spec_files(files).len(),
    decreases files.len() - n,
{
    if n < files.len() {
        assert(files.take(n + 1) =~= files.take(n).push(files[n]));
        lemma_files_push(files.take(n), files[n]);
        lemma_files_prefix_len(files, n + 1);
    } else {
        assert(files.take(n) =~= files);
    }
}

/// A list of well-formed entries, written and followed by anything, reads
/// back as itself with the extension flags cleared.
pub proof fn lemma_read_files_of_serialized(files: Seq<FileView>, rest: Seq<u8>)
    requires
        spec_files_wf(files),
    ensures
        spec_read_files(spec_files(files) + rest, files.len()) == Some(
            (rest, spec_files_without_extended(files)),
        ),
        spec_files_wf(spec_files_without_extended(files)),
    decreases files.len(),
{
    if files.len() == 0 {
        assert(spec_files(files) + rest =~= rest);
        assert(spec_files_without_extended(files) =~= Seq::<FileView>::empty());
    } else {
        let tail = files.drop_first();
        lemma_concat_assoc(files[0].spec_serialize(), spec_files(tail), rest);
        files[0].lemma_parse_of_serialized(spec_files(tail) + rest);
        lemma_read_files_of_serialized(tail, rest);
        assert(seq![files[0].without_extended()] + spec_files_without_extended(tail)
            =~= spec_files_without_extended(files));
    }
    assert forall|i: int| 0 <= i < files.len() implies (#[trigger] spec_files_without_extended(
        files,
    )[i]).wf() by {
        files[i].attrs.lemma_parse_of_serialized(Seq::empty());
    }
}

/// Whatever reads as a list of entries is a list of well-formed entries of
/// the length asked for and, where no extension flag is set, starts with what
/// that list is written as.
pub proof fn lemma_read_files_is_serialized(s: Seq<u8>, count: nat)
    requires
        spec_read_files(s, count) is Some,
    ensures
        ({
            let (rest, files) = spec_read_files(s, count)->0;
            &&& files.len() == count
            &&& spec_files_wf(files)
            &&& rest.len() + 12 * count <= s.len()
            &&& s.len() == spec_files(files).len() + rest.len()
            &&& spec_files_plain(files) ==> s == spec_files(files) + rest
        }),
    decreases count,
{
    if count == 0 {
        assert(s =~= Seq::<u8>::empty() + s);
    } else {
        let (s1, f) = FileView::spec_parse(s)->0;
        let (rest, fs) = spec_read_files(s1, (count - 1) as nat)->0;
        FileView::lemma_parsed_is_serialized(s);
        lemma_read_files_is_serialized(s1, (count - 1) as nat);
        let files = seq![f] + fs;
        assert(files.drop_first() =~= fs);
        assert(files[0] == f);
        assert forall|i: int| 0 <= i < files.len() implies (#[trigger] files[i]).wf() by {
            if i > 0 {
                assert(files[i] == fs[i - 1]);
            }
        }
        f.lemma_at_least_twelve();
        if spec_files_plain(files) {
            assert forall|i: int| 0 <= i < fs.len() implies !(#[trigger] fs[i]).attrs.flags
                .contains(crate::common::ATTR_EXTENDED) by {
                assert(fs[i] == files[i + 1]);
            }
            lemma_concat_assoc(f.spec_serialize(), spec_files(fs), rest);
        } else {
            FileView::lemma_parsed_len(s);
        }
        FileView::lemma_parsed_len(s);
    }
}

/// A name response: the request it answers and the names, in order.
#[derive(Clone, Debug, PartialEq, Eq)]
pub struct Name {
    pub id: u32,
    pub files: Vec<File>,
}

impl Name {
    /// A response to request `id` that lists nothing yet.
    pub fn new(id: u32) -> (r: Self)
        ensures
            r.id == id,
            r.files@.len() == 0,
    {
        Name { id, files: Vec::new() }
    }

    /// Adds one name at the end of the list.
    pub fn append_file(&mut self, filename: &str, longname: &str, attrs: FileAttributes)
        ensures
            final(self).id == old(self).id,
            final(self).files@.len() == old(self).files@.len() + 1,
            spec_file_views(final(self).files@) == spec_file_views(old(self).files@).push(
                FileView { filename: filename@, longname: longname@, attrs },
            ),
    {
        self.files.push(
            File { filename: filename.to_owned(), longname: longname.to_owned(), attrs },
        );
        assert(spec_file_views(self.files@) =~= spec_file_views(old(self).files@).push(
            FileView { filename: filename@, longname: longname@, attrs },
        ));
    }
}

} // verus!
